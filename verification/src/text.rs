use vstd::prelude::*;

verus! {

/// The pattern `p` occurs in `s` starting at position `i`.
pub open spec fn occurs_at(s: Seq<char>, p: Seq<char>, i: int) -> bool {
    &&& 0 <= i
    &&& i + p.len() <= s.len()
    &&& s.subrange(i, i + p.len()) == p
}

/// The position of the leftmost occurrence of `p` in `s` at or after `from`.
pub open spec fn find_from(s: Seq<char>, p: Seq<char>, from: int) -> Option<int>
    decreases s.len() + 1 - from,
{
    if from < 0 || from + p.len() > s.len() {
        None
    } else if occurs_at(s, p, from) {
        Some(from)
    } else {
        find_from(s, p, from + 1)
    }
}

/// `s` contains `p` (as `str::contains` with a string pattern).
pub open spec fn contains_seq(s: Seq<char>, p: Seq<char>) -> bool {
    find_from(s, p, 0) is Some
}

/// The first piece of `s.split(p)`: the text before the first occurrence of
/// `p`, or all of `s` when `p` does not occur.
pub open spec fn split_first(s: Seq<char>, p: Seq<char>) -> Seq<char> {
    match find_from(s, p, 0) {
        Some(i) => s.subrange(0, i),
        None => s,
    }
}

/// The second piece of `s.split(p)` for a nonempty `p`: the text between the
/// first and the second occurrence of `p`, or everything after the first one
/// when there is no second; `None` when `p` does not occur at all.
pub open spec fn split_second(s: Seq<char>, p: Seq<char>) -> Option<Seq<char>> {
    match find_from(s, p, 0) {
        None => None,
        Some(i) => {
            let start = i + p.len();
            match find_from(s, p, start) {
                Some(j) => Some(s.subrange(start, j)),
                None => Some(s.subrange(start, s.len() as int)),
            }
        },
    }
}

/// `str::strip_prefix`.
pub open spec fn strip_prefix_seq(s: Seq<char>, prefix: Seq<char>) -> Option<Seq<char>> {
    if prefix.len() <= s.len() && s.subrange(0, prefix.len() as int) == prefix {
        Some(s.subrange(prefix.len() as int, s.len() as int))
    } else {
        None
    }
}

/// The lexicographic order of `String` (`<`): for valid UTF-8 text, comparing
/// the bytes is the same as comparing the code points one by one.
pub open spec fn seq_lt(a: Seq<char>, b: Seq<char>) -> bool
    decreases a.len(),
{
    if a.len() == 0 {
        b.len() > 0
    } else if b.len() == 0 {
        false
    } else if a[0] != b[0] {
        (a[0] as int) < (b[0] as int)
    } else {
        seq_lt(a.drop_first(), b.drop_first())
    }
}

/// The characters of `s`, in order.
pub fn chars_of(s: &str) -> (v: Vec<char>)
    ensures
        v@ == s@,
{
    let mut v: Vec<char> = Vec::new();
    let n = s.unicode_len();
    let mut i: usize = 0;
    while i < n
        invariant
            n == s@.len(),
            i <= n,
            v@ == s@.subrange(0, i as int),
        decreases n - i,
    {
        let c = s.get_char(i);
        v.push(c);
        i = i + 1;
        assert(v@ =~= s@.subrange(0, i as int));
    }
    assert(v@ =~= s@);
    v
}

/// Whether `p` occurs in `s` at position `i`.
pub fn occurs_at_exec(s: &Vec<char>, p: &Vec<char>, i: usize) -> (r: bool)
    ensures
        r == occurs_at(s@, p@, i as int),
{
    if i > s.len() || p.len() > s.len() - i {
        return false;
    }
    let n = s.len();
    let mut k: usize = 0;
    while k < p.len()
        invariant
            n == s@.len(),
            i + p@.len() <= s@.len(),
            k <= p@.len(),
            forall|j: int| 0 <= j < k ==> s@[i + j] == p@[j],
        decreases p@.len() - k,
    {
        if s[i + k] != p[k] {
            assert(s@.subrange(i as int, i + p@.len())[k as int] != p@[k as int]);
            return false;
        }
        k = k + 1;
    }
    assert(s@.subrange(i as int, i + p@.len()) =~= p@);
    true
}

/// The leftmost occurrence of `p` in `s` at or after `from`.
pub fn find_from_exec(s: &Vec<char>, p: &Vec<char>, from: usize) -> (r: Option<usize>)
    ensures
        r matches Some(i) ==> find_from(s@, p@, from as int) == Some(i as int),
        r is None ==> find_from(s@, p@, from as int) is None,
{
    let n = s.len();
    let mut i = from;
    while i <= n && p.len() <= n - i
        invariant
            n == s@.len(),
            from <= i,
            find_from(s@, p@, from as int) == find_from(s@, p@, i as int),
        decreases s@.len() + 1 - i,
    {
        if occurs_at_exec(s, p, i) {
            return Some(i);
        }
        if p.len() == 0 {
            assert(s@.subrange(i as int, i as int) =~= p@);
        }
        i = i + 1;
    }
    None
}

/// The characters of `s` from position `from` up to, not including, `to`.
pub fn substring(s: &str, from: usize, to: usize) -> (r: String)
    requires
        from <= to <= s@.len(),
    ensures
        r@ == s@.subrange(from as int, to as int),
{
    s.substring_char(from, to).to_owned()
}

/// The first piece of `s.split(p)`.
pub fn split_first_exec(s: &str, p: &str) -> (r: String)
    ensures
        r@ == split_first(s@, p@),
{
    let sv = chars_of(s);
    let pv = chars_of(p);
    proof {
        lemma_find_from_bounds(s@, p@, 0);
    }
    match find_from_exec(&sv, &pv, 0) {
        Some(i) => substring(s, 0, i),
        None => s.to_owned(),
    }
}

/// The second piece of `s.split(p)`, for a nonempty pattern `p`.
pub fn split_second_exec(s: &str, p: &str) -> (r: Option<String>)
    requires
        p@.len() > 0,
    ensures
        r matches Some(t) ==> split_second(s@, p@) == Some(t@),
        r is None ==> split_second(s@, p@) is None,
{
    let sv = chars_of(s);
    let pv = chars_of(p);
    proof {
        lemma_find_from_bounds(s@, p@, 0);
    }
    let n = sv.len();
    match find_from_exec(&sv, &pv, 0) {
        None => None,
        Some(i) => {
            let start = i + pv.len();
            match find_from_exec(&sv, &pv, start) {
                Some(j) => {
                    proof {
                        lemma_find_from_bounds(s@, p@, start as int);
                    }
                    Some(substring(s, start, j))
                },
                None => Some(substring(s, start, n)),
            }
        },
    }
}

/// Whether `p` occurs in `s`.
pub fn contains_exec(s: &str, p: &str) -> (r: bool)
    ensures
        r == contains_seq(s@, p@),
{
    let sv = chars_of(s);
    let pv = chars_of(p);
    find_from_exec(&sv, &pv, 0).is_some()
}

/// `s.strip_prefix(prefix)`.
pub fn strip_prefix_exec(s: &str, prefix: &str) -> (r: Option<String>)
    ensures
        r matches Some(t) ==> strip_prefix_seq(s@, prefix@) == Some(t@),
        r is None ==> strip_prefix_seq(s@, prefix@) is None,
{
    let sv = chars_of(s);
    let pv = chars_of(prefix);
    if occurs_at_exec(&sv, &pv, 0) {
        Some(substring(s, pv.len(), sv.len()))
    } else {
        None
    }
}

/// `a < b` for strings.
pub fn str_lt(a: &str, b: &str) -> (r: bool)
    ensures
        r == seq_lt(a@, b@),
{
    let av = chars_of(a);
    let bv = chars_of(b);
    let mut i: usize = 0;
    assert(av@.skip(0) =~= av@);
    assert(bv@.skip(0) =~= bv@);
    while i < av.len() && i < bv.len() && av[i] == bv[i]
        invariant
            i <= av@.len(),
            i <= bv@.len(),
            seq_lt(a@, b@) == seq_lt(av@.skip(i as int), bv@.skip(i as int)),
            av@ == a@,
            bv@ == b@,
        decreases av@.len() - i,
    {
        assert(av@.skip(i as int).drop_first() =~= av@.skip(i + 1));
        assert(bv@.skip(i as int).drop_first() =~= bv@.skip(i + 1));
        i = i + 1;
    }
    assert(av@.skip(i as int).len() == 0 ==> i == av@.len());
    if i < av.len() && i < bv.len() {
        assert(av@.skip(i as int)[0] == av@[i as int]);
        assert(bv@.skip(i as int)[0] == bv@[i as int]);
    }
    if i == av.len() {
        i < bv.len()
    } else if i == bv.len() {
        false
    } else {
        av[i] < bv[i]
    }
}

/// The characters of `s` in reverse order.
pub fn reverse_str(s: &str) -> (r: String)
    ensures
        r@ == s@.reverse(),
{
    let n = s.unicode_len();
    let mut r = String::new();
    let mut i: usize = n;
    while i > 0
        invariant
            n == s@.len(),
            i <= n,
            r@ == s@.subrange(i as int, n as int).reverse(),
        decreases i,
    {
        let piece = s.substring_char(i - 1, i);
        r.append(piece);
        assert(r@ =~= s@.subrange(i - 1, n as int).reverse());
        i = i - 1;
    }
    assert(s@.subrange(0, n as int) =~= s@);
    r
}

/// Where the search finds `p`, it occurs, at or after `from`.
pub proof fn lemma_find_from_bounds(s: Seq<char>, p: Seq<char>, from: int)
    ensures
        find_from(s, p, from) matches Some(j) ==> from <= j && j + p.len() <= s.len()
            && occurs_at(s, p, j),
    decreases s.len() + 1 - from,
{
    if from < 0 || from + p.len() > s.len() {
    } else if occurs_at(s, p, from) {
    } else {
        lemma_find_from_bounds(s, p, from + 1);
    }
}

/// `seq_lt` is transitive.
pub proof fn lemma_seq_lt_transitive(a: Seq<char>, b: Seq<char>, c: Seq<char>)
    requires
        seq_lt(a, b),
        seq_lt(b, c),
    ensures
        seq_lt(a, c),
    decreases a.len(),
{
    if a.len() > 0 && b.len() > 0 && c.len() > 0 {
        if a[0] == b[0] && b[0] == c[0] {
            lemma_seq_lt_transitive(a.drop_first(), b.drop_first(), c.drop_first());
        }
    }
}

/// Two different sequences are ordered one way or the other.
pub proof fn lemma_seq_lt_total(a: Seq<char>, b: Seq<char>)
    requires
        a != b,
    ensures
        seq_lt(a, b) || seq_lt(b, a),
    decreases a.len(),
{
    if a.len() == 0 {
        assert(b.len() > 0) by {
            if b.len() == 0 {
                assert(a =~= b);
            }
        }
    } else if b.len() == 0 {
    } else if a[0] != b[0] {
        let x = a[0] as int;
        let y = b[0] as int;
        assert(x != y);
    } else {
        if a.drop_first() == b.drop_first() {
            assert(a =~= seq![a[0]] + a.drop_first());
            assert(b =~= seq![b[0]] + b.drop_first());
        }
        lemma_seq_lt_total(a.drop_first(), b.drop_first());
    }
}

/// When the search finds nothing, `p` occurs nowhere at or after `from`.
pub proof fn lemma_find_from_none(s: Seq<char>, p: Seq<char>, from: int, i: int)
    requires
        0 <= from <= i,
        find_from(s, p, from) is None,
    ensures
        !occurs_at(s, p, i),
    decreases s.len() + 1 - from,
{
    if from + p.len() > s.len() {
    } else if from < i {
        lemma_find_from_none(s, p, from + 1, i);
    }
}

/// The search skips positions where `p` does not occur.
pub proof fn lemma_find_from_skip(s: Seq<char>, p: Seq<char>, from: int, k: int)
    requires
        0 <= from <= k,
        k <= s.len() - p.len() + 1,
        forall|i: int| from <= i < k ==> !occurs_at(s, p, i),
    ensures
        find_from(s, p, from) == find_from(s, p, k),
    decreases k - from,
{
    if from < k {
        assert(!occurs_at(s, p, from));
        assert(from + p.len() <= s.len());
        lemma_find_from_skip(s, p, from + 1, k);
    }
}

/// Reading a value back from `prefix + marker + value + stop + rest`: the text
/// after the first marker, cut at the first `stop`, is `value`, provided the
/// marker first occurs after `prefix`, the marker holds `=` at position `e`
/// with no `stop` before it, and the value holds neither `stop` nor `=`.
pub proof fn lemma_value_after_marker(
    prefix: Seq<char>,
    m: Seq<char>,
    e: int,
    value: Seq<char>,
    stop: char,
    rest: Seq<char>,
)
    requires
        0 <= e < m.len(),
        m[e] == '=',
        stop != '=',
        forall|i: int| 0 <= i < e ==> m[i] != stop,
        !contains_seq(prefix + m.drop_last(), m),
        forall|i: int| 0 <= i < value.len() ==> value[i] != stop && value[i] != '=',
    ensures
        split_second(prefix + m + value + seq![stop] + rest, m) matches Some(s) && split_first(
            s,
            seq![stop],
        ) == value,
{
    let page = prefix + m + value + seq![stop] + rest;
    let q = prefix + m.drop_last();
    let start: int = (prefix.len() + m.len()) as int;
    assert forall|i: int| 0 <= i < prefix.len() implies !occurs_at(page, m, i) by {
        lemma_find_from_none(q, m, 0, i);
        assert(page.subrange(i, i + m.len()) =~= q.subrange(i, i + m.len()));
    }
    lemma_find_from_skip(page, m, 0, prefix.len() as int);
    assert(page.subrange(prefix.len() as int, start) =~= m);
    assert(find_from(page, m, 0) == Some(prefix.len() as int));
    let vend: int = start + value.len();
    assert(page[vend] == stop);
    assert forall|j: int| start <= j <= vend implies !occurs_at(page, m, j) by {
        if occurs_at(page, m, j) {
            if j + e <= vend {
                assert(page.subrange(j, j + m.len())[e] == m[e]);
                if j + e < vend {
                    assert(page[j + e] == value[j + e - start]);
                }
            } else {
                let k = vend - j;
                assert(page.subrange(j, j + m.len())[k] == m[k]);
            }
        }
    }
    let k: int = if vend + 1 <= page.len() - m.len() + 1 {
        vend + 1
    } else {
        page.len() - m.len() + 1
    };
    if start <= k {
        lemma_find_from_skip(page, m, start, k);
        lemma_find_from_bounds(page, m, k);
    }
    let second = find_from(page, m, start);
    let seg = match second {
        Some(j) => page.subrange(start, j),
        None => page.subrange(start, page.len() as int),
    };
    assert(seg.len() > value.len());
    assert(seg.subrange(0, value.len() as int) =~= value);
    assert(seg[value.len() as int] == stop);
    let qt: Seq<char> = seq![stop];
    assert forall|i: int| 0 <= i < value.len() implies !occurs_at(seg, qt, i) by {
        assert(seg[i] == value[i]);
        assert(seg.subrange(i, i + 1)[0] == seg[i]);
    }
    lemma_find_from_skip(seg, qt, 0, value.len() as int);
    assert(seg.subrange(value.len() as int, value.len() + 1int) =~= qt);
    assert(find_from(seg, qt, 0) == Some(value.len() as int));
}

} // verus!
