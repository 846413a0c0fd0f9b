use vstd::prelude::*;

verus! {

/// The characters of `s`, one by one.
pub fn chars_of(s: &str) -> (v: Vec<char>)
    ensures
        v@ == s@,
{
    let mut v: Vec<char> = Vec::new();
    for c in it: s.chars()
        invariant
            v@ == it.seq().take(it.index() as int),
            it.seq() == s@,
    {
        v.push(c);
    }
    v
}

/// Whether two strings hold the same characters.
pub fn str_eq(a: &str, b: &str) -> (r: bool)
    ensures
        r == (a@ == b@),
{
    let va = chars_of(a);
    let vb = chars_of(b);
    if va.len() != vb.len() {
        return false;
    }
    let n = va.len();
    for i in 0..n
        invariant
            n == va@.len(),
            n == vb@.len(),
            va@ == a@,
            vb@ == b@,
            forall|j: int| 0 <= j < i ==> va@[j] == vb@[j],
    {
        if va[i] != vb[i] {
            assert(a@[i as int] != b@[i as int]);
            return false;
        }
    }
    assert(va@ =~= vb@);
    true
}

/// An owned copy of `s`.
pub fn owned(s: &str) -> (r: String)
    ensures
        r@ == s@,
{
    s.to_owned()
}

/// `i` is the first position at which `c` occurs in `s`.
pub open spec fn is_first_char(s: Seq<char>, c: char, i: int) -> bool {
    &&& 0 <= i < s.len()
    &&& s[i] == c
    &&& forall|j: int| 0 <= j < i ==> s[j] != c
}

/// The first position of `c` in `s`, if `c` occurs.
pub open spec fn first_index_of_char(s: Seq<char>, c: char) -> Option<int> {
    if s.contains(c) {
        Some(choose|i: int| is_first_char(s, c, i))
    } else {
        None
    }
}

/// Two first positions of one character are the same position.
pub proof fn lemma_first_char_unique(s: Seq<char>, c: char, i: int)
    requires
        is_first_char(s, c, i),
    ensures
        first_index_of_char(s, c) == Some(i),
{
    assert(s.contains(c));
    let k = choose|k: int| is_first_char(s, c, k);
    assert(is_first_char(s, c, k));
    if k < i {
        assert(s[k] != c);
    } else if k > i {
        assert(s[i] != c);
    }
}

/// The first position at or after `from` at which `c` stands in `v`,
/// counted from the start of `v`.
pub fn find_char(v: &Vec<char>, c: char, from: usize) -> (r: Option<usize>)
    requires
        from <= v@.len(),
    ensures
        match r {
            Some(i) => from <= i && is_first_char(v@.skip(from as int), c, i - from)
                && first_index_of_char(v@.skip(from as int), c) == Some(i - from),
            None => first_index_of_char(v@.skip(from as int), c) is None,
        },
{
    let ghost t = v@.skip(from as int);
    let n = v.len();
    let mut i = from;
    while i < n
        invariant
            from <= i <= n,
            n == v@.len(),
            t == v@.skip(from as int),
            forall|j: int| 0 <= j < i - from ==> t[j] != c,
        decreases n - i,
    {
        if v[i] == c {
            proof {
                assert(is_first_char(t, c, i - from));
                lemma_first_char_unique(t, c, i - from);
            }
            return Some(i);
        }
        i = i + 1;
    }
    assert(!t.contains(c)) by {
        if t.contains(c) {
            let j = choose|j: int| 0 <= j < t.len() && t[j] == c;
        }
    }
    None
}

/// `pat` stands in `s` starting at position `i`.
pub open spec fn matches_at(s: Seq<char>, pat: Seq<char>, i: int) -> bool {
    &&& 0 <= i
    &&& i + pat.len() <= s.len()
    &&& s.subrange(i, i + pat.len()) == pat
}

/// `i` is the first position at which `pat` stands in `s`.
pub open spec fn is_first_match(s: Seq<char>, pat: Seq<char>, i: int) -> bool {
    &&& matches_at(s, pat, i)
    &&& forall|j: int| 0 <= j < i ==> !matches_at(s, pat, j)
}

/// The first position at which `pat` stands in `s`, if it does.
pub open spec fn first_match(s: Seq<char>, pat: Seq<char>) -> Option<int> {
    if exists|i: int| matches_at(s, pat, i) {
        Some(choose|i: int| is_first_match(s, pat, i))
    } else {
        None
    }
}

/// Whether `pat` stands in `v` starting at position `i`.
fn matches_here(v: &Vec<char>, pat: &Vec<char>, i: usize) -> (r: bool)
    requires
        i <= v@.len(),
    ensures
        r == matches_at(v@, pat@, i as int),
{
    if pat.len() > v.len() - i {
        return false;
    }
    let m = pat.len();
    for k in 0..m
        invariant
            m == pat@.len(),
            i + m <= v@.len(),
            v@.len() <= usize::MAX,
            forall|j: int| 0 <= j < k ==> v@[i + j] == pat@[j],
    {
        if v[i + k] != pat[k] {
            assert(v@.subrange(i as int, i + m)[k as int] != pat@[k as int]);
            return false;
        }
    }
    assert(v@.subrange(i as int, i + m) =~= pat@);
    true
}

/// The first position at which `pat` stands in `v`.
pub fn find_seq(v: &Vec<char>, pat: &Vec<char>) -> (r: Option<usize>)
    ensures
        match r {
            Some(i) => is_first_match(v@, pat@, i as int) && first_match(v@, pat@) == Some(i as int),
            None => first_match(v@, pat@) is None,
        },
{
    let n = v.len();
    let mut i: usize = 0;
    loop
        invariant
            i <= n,
            n == v@.len(),
            forall|j: int| 0 <= j < i ==> !matches_at(v@, pat@, j),
        ensures
            forall|j: int| 0 <= j <= n ==> !matches_at(v@, pat@, j),
        decreases n - i,
    {
        if matches_here(v, pat, i) {
            proof {
                assert(is_first_match(v@, pat@, i as int));
                let k = choose|k: int| is_first_match(v@, pat@, k);
                assert(is_first_match(v@, pat@, k));
                if k < i {
                } else if k > i {
                    assert(!matches_at(v@, pat@, i as int));
                }
            }
            return Some(i);
        }
        if i == n {
            break;
        }
        i = i + 1;
    }
    assert(!exists|i: int| matches_at(v@, pat@, i)) by {
        if exists|i: int| matches_at(v@, pat@, i) {
            let j = choose|j: int| matches_at(v@, pat@, j);
            assert(j <= n);
        }
    }
    None
}

} // verus!
