//! Small string helpers shared by the manifest modules: comparisons against
//! literals, view projections for vectors of strings and pairs, and the
//! service-name well-formedness check.
use vstd::prelude::*;

verus! {

/// The views of a vector of strings.
pub open spec fn strs_view(s: Seq<String>) -> Seq<Seq<char>> {
    s.map_values(|x: String| x@)
}

/// The views of an association list of strings.
pub open spec fn pairs_view(s: Seq<(String, String)>) -> Seq<(Seq<char>, Seq<char>)> {
    s.map_values(|p: (String, String)| (p.0@, p.1@))
}

/// Whether a key occurs in an association list (by view).
pub open spec fn has_key(s: Seq<(Seq<char>, Seq<char>)>, k: Seq<char>) -> bool {
    exists|i: int| 0 <= i < s.len() && s[i].0 == k
}

/// The value bound to the first occurrence of a key in an association list.
pub open spec fn key_value(s: Seq<(Seq<char>, Seq<char>)>, k: Seq<char>) -> Seq<char>
    decreases s.len(),
{
    if s.len() == 0 {
        Seq::empty()
    } else if s[0].0 == k {
        s[0].1
    } else {
        key_value(s.drop_first(), k)
    }
}

/// Mapping views commutes with appending a string.
pub proof fn lemma_strs_view_push(s: Seq<String>, x: String)
    ensures
        strs_view(s.push(x)) =~= strs_view(s).push(x@),
{
    assert(strs_view(s.push(x)).len() == s.len() + 1);
    assert forall|i: int| 0 <= i < s.len() + 1 implies strs_view(s.push(x))[i] == strs_view(
        s,
    ).push(x@)[i] by {
        if i < s.len() {
            assert(s.push(x)[i] == s[i]);
        } else {
            assert(s.push(x)[i] == x);
        }
    }
}

/// Mapping views commutes with appending a pair of strings.
pub proof fn lemma_pairs_view_push(s: Seq<(String, String)>, x: (String, String))
    ensures
        pairs_view(s.push(x)) =~= pairs_view(s).push((x.0@, x.1@)),
{
    assert(pairs_view(s.push(x)).len() == s.len() + 1);
    assert forall|i: int| 0 <= i < s.len() + 1 implies pairs_view(s.push(x))[i] == pairs_view(
        s,
    ).push((x.0@, x.1@))[i] by {
        if i < s.len() {
            assert(s.push(x)[i] == s[i]);
        } else {
            assert(s.push(x)[i] == x);
        }
    }
}

/// Taking one more element appends exactly the element at that position.
pub proof fn lemma_take_one_more<A>(s: Seq<A>, i: int)
    requires
        0 <= i < s.len(),
    ensures
        s.take(i + 1) =~= s.take(i).push(s[i]),
{
}

/// The values of an association list, in order.
pub open spec fn values_of(s: Seq<(Seq<char>, Seq<char>)>) -> Seq<Seq<char>> {
    s.map_values(|p: (Seq<char>, Seq<char>)| p.1)
}

/// Copies a vector of strings, preserving its view.
pub fn clone_strs(v: &Vec<String>) -> (r: Vec<String>)
    ensures
        strs_view(r@) == strs_view(v@),
{
    let mut out: Vec<String> = Vec::new();
    let mut i: usize = 0;
    while i < v.len()
        invariant
            i <= v.len(),
            strs_view(out@) =~= strs_view(v@).take(i as int),
        decreases v.len() - i,
    {
        let ghost prev = out@;
        out.push(v[i].clone());
        proof {
            lemma_strs_view_push(prev, v@[i as int]);
            lemma_take_one_more(strs_view(v@), i as int);
            assert(strs_view(v@)[i as int] == v@[i as int]@);
        }
        i += 1;
    }
    assert(strs_view(v@).take(v.len() as int) =~= strs_view(v@));
    out
}

/// Copies an association list of strings, preserving its view.
pub fn clone_pairs(v: &Vec<(String, String)>) -> (r: Vec<(String, String)>)
    ensures
        pairs_view(r@) == pairs_view(v@),
{
    let mut out: Vec<(String, String)> = Vec::new();
    let mut i: usize = 0;
    while i < v.len()
        invariant
            i <= v.len(),
            pairs_view(out@) =~= pairs_view(v@).take(i as int),
        decreases v.len() - i,
    {
        let p = (v[i].0.clone(), v[i].1.clone());
        assert(p.0 == v@[i as int].0 && p.1 == v@[i as int].1);
        let ghost prev = out@;
        out.push(p);
        proof {
            lemma_pairs_view_push(prev, p);
            lemma_take_one_more(pairs_view(v@), i as int);
            assert(pairs_view(v@)[i as int] == (v@[i as int].0@, v@[i as int].1@));
        }
        i += 1;
    }
    assert(pairs_view(v@).take(v.len() as int) =~= pairs_view(v@));
    out
}

/// If a key first occurs at position `i`, the lookup finds its value
/// there.
pub proof fn lemma_key_value_at(s: Seq<(Seq<char>, Seq<char>)>, k: Seq<char>, i: int)
    requires
        0 <= i < s.len(),
        s[i].0 == k,
        forall|j: int| 0 <= j < i ==> (#[trigger] s[j]).0 != k,
    ensures
        has_key(s, k),
        key_value(s, k) == s[i].1,
    decreases i,
{
    assert(has_key(s, k));
    if i == 0 {
        assert(key_value(s, k) == s[0].1);
    } else {
        assert(s[0].0 != k);
        assert(s.drop_first()[i - 1] == s[i]);
        assert forall|j: int| 0 <= j < i - 1 implies (#[trigger] s.drop_first()[j]).0 != k by {
            assert(s.drop_first()[j] == s[j + 1]);
        }
        lemma_key_value_at(s.drop_first(), k, i - 1);
    }
}

/// Appending an entry does not move a key's first occurrence.
/// A key first bound within a prefix is bound to that same value in the
/// whole list.
pub proof fn lemma_key_value_prefix(s: Seq<(Seq<char>, Seq<char>)>, k: Seq<char>, i: int)
    requires
        0 <= i <= s.len(),
        has_key(s.take(i), k),
    ensures
        has_key(s, k),
        key_value(s, k) == key_value(s.take(i), k),
    decreases s.len(),
{
    if i == s.len() {
        assert(s.take(i) =~= s);
    } else {
        assert(s.take(i) =~= s.drop_last().take(i));
        lemma_key_value_prefix(s.drop_last(), k, i);
        lemma_key_value_push(s.drop_last(), s.last(), k);
        assert(s =~= s.drop_last().push(s.last()));
    }
}

/// No two entries of an association list bind the same key.
pub open spec fn unique_keys(s: Seq<(Seq<char>, Seq<char>)>) -> bool {
    forall|i: int, j: int|
        0 <= i < j < s.len() ==> (#[trigger] s[i]).0 != (#[trigger] s[j]).0
}

/// Decides `unique_keys` by checking each key against those before it.
pub fn pairs_keys_unique(v: &Vec<(String, String)>) -> (r: bool)
    ensures
        r == unique_keys(pairs_view(v@)),
{
    let ghost s = pairs_view(v@);
    let mut j: usize = 1;
    if v.len() < 2 {
        return true;
    }
    while j < v.len()
        invariant
            1 <= j <= v@.len(),
            s == pairs_view(v@),
            forall|a: int, b: int| 0 <= a < b < j ==> (#[trigger] s[a]).0 != (#[trigger] s[b]).0,
        decreases v.len() - j,
    {
        let mut i: usize = 0;
        while i < j
            invariant
                i <= j < v@.len(),
                s == pairs_view(v@),
                forall|a: int| 0 <= a < i ==> (#[trigger] s[a]).0 != s[j as int].0,
            decreases j - i,
        {
            assert(s[i as int] == (v@[i as int].0@, v@[i as int].1@));
            assert(s[j as int] == (v@[j as int].0@, v@[j as int].1@));
            if v[i].0 == v[j].0 {
                return false;
            }
            i += 1;
        }
        j += 1;
    }
    true
}

/// The decimal form of a non-negative number.
pub open spec fn dec_view(n: int) -> Seq<char>
    decreases n,
{
    if n < 10 {
        seq![digit_char(n)]
    } else {
        dec_view(n / 10).push(digit_char(n % 10))
    }
}

/// The character of one decimal digit.
pub open spec fn digit_char(d: int) -> char {
    if d == 0 {
        '0'
    } else if d == 1 {
        '1'
    } else if d == 2 {
        '2'
    } else if d == 3 {
        '3'
    } else if d == 4 {
        '4'
    } else if d == 5 {
        '5'
    } else if d == 6 {
        '6'
    } else if d == 7 {
        '7'
    } else if d == 8 {
        '8'
    } else {
        '9'
    }
}

/// One decimal digit as a string slice.
fn digit_str(d: u32) -> (r: &'static str)
    requires
        d < 10,
    ensures
        r@ =~= seq![digit_char(d as int)],
{
    proof {
        reveal_strlit("0");
        reveal_strlit("1");
        reveal_strlit("2");
        reveal_strlit("3");
        reveal_strlit("4");
        reveal_strlit("5");
        reveal_strlit("6");
        reveal_strlit("7");
        reveal_strlit("8");
        reveal_strlit("9");
    }
    match d {
        0 => "0",
        1 => "1",
        2 => "2",
        3 => "3",
        4 => "4",
        5 => "5",
        6 => "6",
        7 => "7",
        8 => "8",
        _ => "9",
    }
}

/// Renders a number in decimal.
pub fn u32_string(n: u32) -> (r: String)
    ensures
        r@ == dec_view(n as int),
    decreases n,
{
    if n < 10 {
        digit_str(n).to_owned()
    } else {
        u32_string(n / 10).concat(digit_str(n % 10))
    }
}

pub proof fn lemma_key_value_push(
    s: Seq<(Seq<char>, Seq<char>)>,
    p: (Seq<char>, Seq<char>),
    k: Seq<char>,
)
    requires
        has_key(s, k),
    ensures
        has_key(s.push(p), k),
        key_value(s.push(p), k) == key_value(s, k),
    decreases s.len(),
{
    let w = choose|i: int| 0 <= i < s.len() && s[i].0 == k;
    assert(s.push(p)[w] == s[w]);
    assert(has_key(s.push(p), k));
    if s[0].0 == k {
        assert(s.push(p)[0] == s[0]);
        assert(key_value(s.push(p), k) == s[0].1);
    } else {
        assert(w > 0);
        assert(s.drop_first()[w - 1] == s[w]);
        assert(has_key(s.drop_first(), k));
        lemma_key_value_push(s.drop_first(), p, k);
        assert(s.push(p).drop_first() =~= s.drop_first().push(p));
        assert(s.push(p)[0] == s[0]);
        assert(key_value(s.push(p), k) == key_value(s.push(p).drop_first(), k));
    }
}

/// Finds the value bound to the first occurrence of a key in an
/// association list, if the key occurs at all.
pub fn find_value(v: &Vec<(String, String)>, k: &String) -> (r: Option<String>)
    ensures
        match r {
            Some(val) => has_key(pairs_view(v@), k@) && val@ == key_value(pairs_view(v@), k@),
            None => !has_key(pairs_view(v@), k@),
        },
{
    let mut i: usize = 0;
    while i < v.len()
        invariant
            i <= v.len(),
            forall|j: int| 0 <= j < i ==> (#[trigger] pairs_view(v@)[j]).0 != k@,
        decreases v.len() - i,
    {
        assert(pairs_view(v@)[i as int] == (v@[i as int].0@, v@[i as int].1@));
        if v[i].0 == *k {
            proof {
                lemma_key_value_at(pairs_view(v@), k@, i as int);
            }
            return Some(v[i].1.clone());
        }
        i += 1;
    }
    assert(!has_key(pairs_view(v@), k@));
    None
}

/// String equality against a literal slice.
pub fn str_is(a: &String, b: &str) -> (r: bool)
    ensures
        r == (a@ == b@),
{
    let bs: String = b.to_owned();
    *a == bs
}

/// Whether a vector of strings holds one with the given view.
pub fn contains_str(v: &Vec<String>, x: &String) -> (r: bool)
    ensures
        r == strs_view(v@).contains(x@),
{
    let mut i: usize = 0;
    while i < v.len()
        invariant
            i <= v.len(),
            forall|j: int| 0 <= j < i ==> strs_view(v@)[j] != x@,
        decreases v.len() - i,
    {
        assert(strs_view(v@)[i as int] == v@[i as int]@);
        if v[i] == *x {
            return true;
        }
        i += 1;
    }
    false
}

/// A character a service name may hold: lower-case alphanumeric or a dash.
pub open spec fn name_char(c: char) -> bool {
    ('a' <= c && c <= 'z') || ('0' <= c && c <= '9') || c == '-'
}

/// A well-formed service name: 1 to 50 characters, lower-case alphanumeric
/// with dashes, and no leading or trailing dash.
pub open spec fn valid_name(s: Seq<char>) -> bool {
    &&& 1 <= s.len() <= 50
    &&& forall|i: int| 0 <= i < s.len() ==> name_char(#[trigger] s[i])
    &&& s[0] != '-'
    &&& s[s.len() - 1] != '-'
}

/// Checks the service-name rule character by character.
pub fn name_ok(s: &String) -> (r: bool)
    ensures
        r == valid_name(s@),
{
    let n = s.as_str().unicode_len();
    if n < 1 || n > 50 {
        return false;
    }
    let mut i: usize = 0;
    while i < n
        invariant
            1 <= n <= 50,
            n == s@.len(),
            i <= n,
            forall|j: int| 0 <= j < i ==> name_char(#[trigger] s@[j]),
        decreases n - i,
    {
        let c = s.as_str().get_char(i);
        let ok = ('a' <= c && c <= 'z') || ('0' <= c && c <= '9') || c == '-';
        if !ok {
            return false;
        }
        i += 1;
    }
    let first = s.as_str().get_char(0);
    let last = s.as_str().get_char(n - 1);
    first != '-' && last != '-'
}

/// A character an environment variable name may hold: upper-case
/// alphanumeric or an underscore.
pub open spec fn env_key_char(c: char) -> bool {
    ('A' <= c && c <= 'Z') || ('0' <= c && c <= '9') || c == '_'
}

/// A well-formed environment variable name: non-empty, upper-case
/// alphanumeric with underscores, not starting with a digit.
pub open spec fn valid_env_key(s: Seq<char>) -> bool {
    &&& s.len() >= 1
    &&& forall|i: int| 0 <= i < s.len() ==> env_key_char(#[trigger] s[i])
    &&& !('0' <= s[0] && s[0] <= '9')
}

/// Checks the environment-variable-name rule character by character.
pub fn env_key_ok(s: &String) -> (r: bool)
    ensures
        r == valid_env_key(s@),
{
    let n = s.as_str().unicode_len();
    if n < 1 {
        return false;
    }
    let mut i: usize = 0;
    while i < n
        invariant
            n == s@.len(),
            1 <= n,
            i <= n,
            forall|j: int| 0 <= j < i ==> env_key_char(#[trigger] s@[j]),
        decreases n - i,
    {
        let c = s.as_str().get_char(i);
        let ok = ('A' <= c && c <= 'Z') || ('0' <= c && c <= '9') || c == '_';
        if !ok {
            return false;
        }
        i += 1;
    }
    let first = s.as_str().get_char(0);
    !('0' <= first && first <= '9')
}

} // verus!
