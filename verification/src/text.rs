use vstd::prelude::*;

verus! {

/// Whitespace as `char::is_whitespace` defines it: the Unicode `White_Space`
/// property.
pub open spec fn is_whitespace(c: char) -> bool {
    let v = c as u32;
    ||| 0x9 <= v <= 0xD
    ||| v == 0x20
    ||| v == 0x85
    ||| v == 0xA0
    ||| v == 0x1680
    ||| 0x2000 <= v <= 0x200A
    ||| v == 0x2028
    ||| v == 0x2029
    ||| v == 0x202F
    ||| v == 0x205F
    ||| v == 0x3000
}

/// `i` is the position of the first character of `s` that is not whitespace.
pub open spec fn is_first_non_ws(s: Seq<char>, i: int) -> bool {
    &&& 0 <= i < s.len()
    &&& !is_whitespace(s[i])
    &&& forall|j: int| 0 <= j < i ==> is_whitespace(#[trigger] s[j])
}

/// `i` is the position of the last character of `s` that is not whitespace.
pub open spec fn is_last_non_ws(s: Seq<char>, i: int) -> bool {
    &&& 0 <= i < s.len()
    &&& !is_whitespace(s[i])
    &&& forall|j: int| i < j < s.len() ==> is_whitespace(#[trigger] s[j])
}

pub open spec fn all_whitespace(s: Seq<char>) -> bool {
    forall|i: int| 0 <= i < s.len() ==> is_whitespace(#[trigger] s[i])
}

/// `s` without its leading and trailing whitespace, as `str::trim` returns it.
pub open spec fn spec_trim(s: Seq<char>) -> Seq<char> {
    if all_whitespace(s) {
        Seq::empty()
    } else {
        let a = choose|a: int| is_first_non_ws(s, a);
        let b = choose|b: int| is_last_non_ws(s, b);
        s.subrange(a, b + 1)
    }
}

/// `i` is the position of the first occurrence of `c` in `s`.
pub open spec fn is_first_index(s: Seq<char>, c: char, i: int) -> bool {
    &&& 0 <= i < s.len()
    &&& s[i] == c
    &&& forall|j: int| 0 <= j < i ==> #[trigger] s[j] != c
}

/// The parts before and after the first occurrence of `c`, or `None` when
/// `c` does not occur (`str::split_once`).
pub open spec fn split_first(s: Seq<char>, c: char) -> Option<(Seq<char>, Seq<char>)> {
    if s.contains(c) {
        let i = choose|i: int| is_first_index(s, c, i);
        Some((s.take(i), s.skip(i + 1)))
    } else {
        None
    }
}

pub proof fn lemma_first_index_unique(s: Seq<char>, c: char, i: int, k: int)
    requires
        is_first_index(s, c, i),
        is_first_index(s, c, k),
    ensures
        i == k,
{
    if i < k {
        assert(s[i] != c);
    } else if k < i {
        assert(s[k] != c);
    }
}

/// A character that occurs has a first occurrence.
pub proof fn lemma_first_index_exists(s: Seq<char>, c: char)
    requires
        s.contains(c),
    ensures
        exists|i: int| is_first_index(s, c, i),
    decreases s.len(),
{
    let t = s.drop_last();
    if t.contains(c) {
        lemma_first_index_exists(t, c);
        let i = choose|i: int| is_first_index(t, c, i);
        assert forall|j: int| 0 <= j < i implies #[trigger] s[j] != c by {
            assert(s[j] == t[j]);
        }
        assert(is_first_index(s, c, i));
    } else {
        let k = choose|k: int| 0 <= k < s.len() && s[k] == c;
        if k < s.len() - 1 {
            assert(t[k] == c);
        }
        assert forall|j: int| 0 <= j < s.len() - 1 implies #[trigger] s[j] != c by {
            if s[j] == c {
                assert(t[j] == c);
            }
        }
        assert(is_first_index(s, c, s.len() - 1));
    }
}

pub proof fn lemma_split_first_at(s: Seq<char>, c: char, i: int)
    requires
        is_first_index(s, c, i),
    ensures
        split_first(s, c) == Some((s.take(i), s.skip(i + 1))),
{
    assert(s.contains(c));
    let k = choose|k: int| is_first_index(s, c, k);
    lemma_first_index_unique(s, c, i, k);
}

pub proof fn lemma_split_first_concat(a: Seq<char>, c: char, b: Seq<char>)
    requires
        !a.contains(c),
    ensures
        split_first(a + seq![c] + b, c) == Some((a, b)),
{
    let s = a + seq![c] + b;
    let i = a.len() as int;
    assert(s[i] == c);
    assert forall|j: int| 0 <= j < i implies #[trigger] s[j] != c by {
        assert(s[j] == a[j]);
    }
    lemma_split_first_at(s, c, i);
    assert(s.take(i) =~= a);
    assert(s.skip(i + 1) =~= b);
}

pub proof fn lemma_first_non_ws_unique(s: Seq<char>, i: int, k: int)
    requires
        is_first_non_ws(s, i),
        is_first_non_ws(s, k),
    ensures
        i == k,
{
    if i < k {
        assert(is_whitespace(s[i]));
    } else if k < i {
        assert(is_whitespace(s[k]));
    }
}

pub proof fn lemma_last_non_ws_unique(s: Seq<char>, i: int, k: int)
    requires
        is_last_non_ws(s, i),
        is_last_non_ws(s, k),
    ensures
        i == k,
{
    if i < k {
        assert(is_whitespace(s[k]));
    } else if k < i {
        assert(is_whitespace(s[i]));
    }
}

/// The characters of `s`, one by one.
pub fn chars_of(s: &str) -> (v: Vec<char>)
    ensures
        v@ == s@,
{
    let n = s.unicode_len();
    let mut v: Vec<char> = Vec::new();
    let mut i: usize = 0;
    while i < n
        invariant
            n == s@.len(),
            i <= n,
            v@ == s@.take(i as int),
        decreases n - i,
    {
        let c = s.get_char(i);
        v.push(c);
        i = i + 1;
        assert(v@ =~= s@.take(i as int));
    }
    assert(s@.take(n as int) =~= s@);
    v
}

pub fn is_whitespace_char(c: char) -> (r: bool)
    ensures
        r == is_whitespace(c),
{
    let v = c as u32;
    (0x9 <= v && v <= 0xD) || v == 0x20 || v == 0x85 || v == 0xA0 || v == 0x1680 || (0x2000 <= v
        && v <= 0x200A) || v == 0x2028 || v == 0x2029 || v == 0x202F || v == 0x205F || v == 0x3000
}

/// `str::trim`: removes leading and trailing whitespace.
pub fn trim(s: &str) -> (r: &str)
    ensures
        r@ == spec_trim(s@),
{
    let v = chars_of(s);
    let n = v.len();
    let mut a: usize = 0;
    while a < n && is_whitespace_char(v[a])
        invariant
            v@ == s@,
            n == v@.len(),
            a <= n,
            forall|j: int| 0 <= j < a ==> is_whitespace(#[trigger] v@[j]),
        decreases n - a,
    {
        a = a + 1;
    }
    if a == n {
        assert(all_whitespace(s@));
        return s.substring_char(0, 0);
    }
    assert(is_first_non_ws(s@, a as int));
    let mut b: usize = n - 1;
    while b > a && is_whitespace_char(v[b])
        invariant
            v@ == s@,
            n == v@.len(),
            a <= b < n,
            !is_whitespace(v@[a as int]),
            forall|j: int| b < j < n ==> is_whitespace(#[trigger] v@[j]),
        decreases b,
    {
        b = b - 1;
    }
    assert(is_last_non_ws(s@, b as int));
    proof {
        assert(!all_whitespace(s@)) by {
            assert(!is_whitespace(s@[a as int]));
        }
        let a2 = choose|x: int| is_first_non_ws(s@, x);
        let b2 = choose|x: int| is_last_non_ws(s@, x);
        lemma_first_non_ws_unique(s@, a as int, a2);
        lemma_last_non_ws_unique(s@, b as int, b2);
    }
    s.substring_char(a, b + 1)
}

/// `str::split_once` on a single character.
pub fn split_once(s: &str, c: char) -> (r: Option<(&str, &str)>)
    ensures
        r is None <==> split_first(s@, c) is None,
        r matches Some((x, y)) ==> split_first(s@, c) == Some((x@, y@)),
{
    let v = chars_of(s);
    let n = v.len();
    let mut i: usize = 0;
    while i < n
        invariant
            v@ == s@,
            n == v@.len(),
            i <= n,
            forall|j: int| 0 <= j < i ==> #[trigger] v@[j] != c,
        decreases n - i,
    {
        if v[i] == c {
            proof {
                lemma_split_first_at(s@, c, i as int);
            }
            let x = s.substring_char(0, i);
            let y = s.substring_char(i + 1, n);
            assert(x@ =~= s@.take(i as int));
            assert(y@ =~= s@.skip(i as int + 1));
            return Some((x, y));
        }
        i = i + 1;
    }
    assert(!s@.contains(c)) by {
        if s@.contains(c) {
            let k = choose|k: int| 0 <= k < s@.len() && s@[k] == c;
            assert(v@[k] != c);
        }
    }
    None
}

/// True when `c` occurs in `s`.
pub fn contains_char(s: &str, c: char) -> (r: bool)
    ensures
        r == s@.contains(c),
{
    let v = chars_of(s);
    let n = v.len();
    let mut i: usize = 0;
    while i < n
        invariant
            v@ == s@,
            n == v@.len(),
            i <= n,
            forall|j: int| 0 <= j < i ==> #[trigger] v@[j] != c,
        decreases n - i,
    {
        if v[i] == c {
            assert(s@[i as int] == c);
            return true;
        }
        i = i + 1;
    }
    assert(!s@.contains(c)) by {
        if s@.contains(c) {
            let k = choose|k: int| 0 <= k < s@.len() && s@[k] == c;
            assert(v@[k] != c);
        }
    }
    false
}

/// Trimming twice is trimming once.
pub proof fn lemma_trim_idempotent(s: Seq<char>)
    ensures
        spec_trim(spec_trim(s)) == spec_trim(s),
{
    let t = spec_trim(s);
    if all_whitespace(s) {
        assert(all_whitespace(t));
    } else {
        let a = choose|a: int| is_first_non_ws(s, a);
        let b = choose|b: int| is_last_non_ws(s, b);
        assert(exists|a: int| is_first_non_ws(s, a)) by {
            let k = choose|k: int| 0 <= k < s.len() && !is_whitespace(s[k]);
            lemma_first_non_ws_exists(s, k);
        }
        assert(exists|b: int| is_last_non_ws(s, b)) by {
            let k = choose|k: int| 0 <= k < s.len() && !is_whitespace(s[k]);
            lemma_last_non_ws_exists(s, k);
        }
        assert(a <= b) by {
            if b < a {
                assert(is_whitespace(s[b]));
            }
        }
        assert(t == s.subrange(a, b + 1));
        assert(!is_whitespace(t[0]));
        assert(!all_whitespace(t));
        assert(is_first_non_ws(t, 0));
        assert(is_last_non_ws(t, t.len() - 1));
        let a2 = choose|x: int| is_first_non_ws(t, x);
        let b2 = choose|x: int| is_last_non_ws(t, x);
        lemma_first_non_ws_unique(t, a2, 0);
        lemma_last_non_ws_unique(t, b2, t.len() - 1);
        assert(t.subrange(0, t.len() as int) =~= t);
    }
}

pub proof fn lemma_first_non_ws_exists(s: Seq<char>, k: int)
    requires
        0 <= k < s.len(),
        !is_whitespace(s[k]),
    ensures
        exists|a: int| is_first_non_ws(s, a),
    decreases k,
{
    if forall|j: int| 0 <= j < k ==> is_whitespace(#[trigger] s[j]) {
        assert(is_first_non_ws(s, k));
    } else {
        let j = choose|j: int| 0 <= j < k && !is_whitespace(#[trigger] s[j]);
        lemma_first_non_ws_exists(s, j);
    }
}

pub proof fn lemma_last_non_ws_exists(s: Seq<char>, k: int)
    requires
        0 <= k < s.len(),
        !is_whitespace(s[k]),
    ensures
        exists|b: int| is_last_non_ws(s, b),
    decreases s.len() - k,
{
    if forall|j: int| k < j < s.len() ==> is_whitespace(#[trigger] s[j]) {
        assert(is_last_non_ws(s, k));
    } else {
        let j = choose|j: int| k < j < s.len() && !is_whitespace(#[trigger] s[j]);
        lemma_last_non_ws_exists(s, j);
    }
}

} // verus!
