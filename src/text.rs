//! Small string helpers with exact contracts.

use vstd::prelude::*;

verus! {

/// Compares two strings character by character.
pub fn str_eq(a: &str, b: &str) -> (r: bool)
    ensures
        r == (a@ == b@),
{
    let n = a.unicode_len();
    if n != b.unicode_len() {
        return false;
    }
    let mut i: usize = 0;
    while i < n
        invariant
            n == a@.len(),
            n == b@.len(),
            i <= n,
            forall|j: int| 0 <= j < i ==> a@[j] == b@[j],
        decreases n - i,
    {
        if a.get_char(i) != b.get_char(i) {
            return false;
        }
        i = i + 1;
    }
    assert(a@ =~= b@);
    true
}

/// The set of the strings in `v`.
pub open spec fn string_set(v: Seq<String>) -> Set<Seq<char>> {
    Set::new(|x: Seq<char>| exists|j: int| 0 <= j < v.len() && #[trigger] v[j]@ == x)
}

/// Whether `x` is among the strings of `v`.
pub fn contains_string(v: &Vec<String>, x: &String) -> (r: bool)
    ensures
        r == string_set(v@).contains(x@),
{
    let mut i: usize = 0;
    while i < v.len()
        invariant
            i <= v@.len(),
            forall|j: int| 0 <= j < i ==> v@[j]@ != x@,
        decreases v@.len() - i,
    {
        if v[i] == *x {
            assert(v@[i as int]@ == x@);
            return true;
        }
        i = i + 1;
    }
    false
}

/// Adds `x` to the strings of `v`, unless it is there already.
pub fn insert_string(v: &mut Vec<String>, x: String)
    ensures
        string_set(final(v)@) == string_set(old(v)@).insert(x@),
{
    if contains_string(v, &x) {
        assert(string_set(v@) =~= string_set(v@).insert(x@));
        return;
    }
    let ghost v0 = v@;
    let ghost xv = x@;
    v.push(x);
    assert forall|y: Seq<char>| #[trigger] string_set(v@).contains(y) <==> string_set(v0).insert(xv).contains(y) by {
        if string_set(v@).contains(y) {
            let j = choose|j: int| 0 <= j < v@.len() && #[trigger] v@[j]@ == y;
            if j < v0.len() {
                assert(v0[j]@ == y);
            }
        }
        if string_set(v0).contains(y) {
            let j = choose|j: int| 0 <= j < v0.len() && #[trigger] v0[j]@ == y;
            assert(v@[j]@ == y);
        }
        if y == xv {
            assert(v@[v0.len() as int]@ == y);
        }
    }
    assert(string_set(v@) =~= string_set(v0).insert(xv));
}

/// Removes every copy of `x` from the strings of `v`.
pub fn remove_string(v: &mut Vec<String>, x: &String)
    ensures
        string_set(final(v)@) == string_set(old(v)@).remove(x@),
{
    let ghost v0 = v@;
    let mut kept: Vec<String> = Vec::new();
    let mut i: usize = 0;
    while i < v.len()
        invariant
            v@ == v0,
            i <= v0.len(),
            forall|y: Seq<char>| #[trigger] string_set(kept@).contains(y)
                <==> (y != x@ && exists|j: int| 0 <= j < i && #[trigger] v0[j]@ == y),
        decreases v0.len() - i,
    {
        if v[i] != *x {
            let ghost k0 = kept@;
            kept.push(v[i].clone());
            assert forall|y: Seq<char>| #[trigger] string_set(kept@).contains(y)
                <==> (y != x@ && exists|j: int| 0 <= j < i + 1 && #[trigger] v0[j]@ == y) by {
                if string_set(kept@).contains(y) {
                    let j = choose|j: int| 0 <= j < kept@.len() && #[trigger] kept@[j]@ == y;
                    if j < k0.len() {
                        assert(string_set(k0).contains(y));
                    } else {
                        assert(v0[i as int]@ == y);
                    }
                }
                if y != x@ && exists|j: int| 0 <= j < i + 1 && #[trigger] v0[j]@ == y {
                    let j = choose|j: int| 0 <= j < i + 1 && #[trigger] v0[j]@ == y;
                    if j < i {
                        assert(string_set(k0).contains(y));
                        let q = choose|q: int| 0 <= q < k0.len() && #[trigger] k0[q]@ == y;
                        assert(kept@[q]@ == y);
                    } else {
                        assert(kept@[k0.len() as int]@ == y);
                    }
                }
            }
        } else {
            assert forall|y: Seq<char>| #[trigger] string_set(kept@).contains(y)
                <==> (y != x@ && exists|j: int| 0 <= j < i + 1 && #[trigger] v0[j]@ == y) by {
                if y != x@ && exists|j: int| 0 <= j < i + 1 && #[trigger] v0[j]@ == y {
                    let j = choose|j: int| 0 <= j < i + 1 && #[trigger] v0[j]@ == y;
                    assert(j < i);
                }
            }
        }
        i = i + 1;
    }
    *v = kept;
    assert(string_set(v@) =~= string_set(v0).remove(x@));
}

/// The views of some strings.
pub open spec fn string_views(v: Seq<String>) -> Seq<Seq<char>> {
    v.map_values(|s: String| s@)
}

/// The strings of `v` without repeats, in the order they first occur.
pub fn distinct_strings(v: &Vec<String>) -> (r: Vec<String>)
    ensures
        string_set(r@) == string_set(v@),
        string_views(r@).no_duplicates(),
{
    let mut out: Vec<String> = Vec::new();
    let mut i: usize = 0;
    while i < v.len()
        invariant
            i <= v@.len(),
            forall|y: Seq<char>| #[trigger] string_set(out@).contains(y)
                <==> exists|j: int| 0 <= j < i && #[trigger] v@[j]@ == y,
            string_views(out@).no_duplicates(),
        decreases v@.len() - i,
    {
        if !contains_string(&out, &v[i]) {
            let ghost o0 = out@;
            let e = v[i].clone();
            let ghost ev = e@;
            out.push(e);
            proof {
                assert(string_views(out@) =~= string_views(o0).push(ev));
                assert forall|a: int, b: int| 0 <= a < out@.len() && 0 <= b < out@.len() && a != b
                    implies string_views(out@)[a] != string_views(out@)[b] by {
                    if a == o0.len() {
                        assert(string_views(o0)[b] == o0[b]@);
                        assert(!string_set(o0).contains(ev));
                    } else if b == o0.len() {
                        assert(string_views(o0)[a] == o0[a]@);
                        assert(!string_set(o0).contains(ev));
                    }
                }
                assert forall|y: Seq<char>| #[trigger] string_set(out@).contains(y)
                    <==> exists|j: int| 0 <= j < i + 1 && #[trigger] v@[j]@ == y by {
                    if string_set(out@).contains(y) {
                        let q = choose|q: int| 0 <= q < out@.len() && #[trigger] out@[q]@ == y;
                        if q < o0.len() {
                            assert(string_set(o0).contains(y));
                        } else {
                            assert(v@[i as int]@ == y);
                        }
                    }
                    if exists|j: int| 0 <= j < i + 1 && #[trigger] v@[j]@ == y {
                        let j = choose|j: int| 0 <= j < i + 1 && #[trigger] v@[j]@ == y;
                        if j < i {
                            assert(string_set(o0).contains(y));
                            let q = choose|q: int| 0 <= q < o0.len() && #[trigger] o0[q]@ == y;
                            assert(out@[q]@ == y);
                        } else {
                            assert(out@[o0.len() as int]@ == y);
                        }
                    }
                }
            }
        } else {
            proof {
                assert forall|y: Seq<char>| #[trigger] string_set(out@).contains(y)
                    <==> exists|j: int| 0 <= j < i + 1 && #[trigger] v@[j]@ == y by {
                    if exists|j: int| 0 <= j < i + 1 && #[trigger] v@[j]@ == y {
                        let j = choose|j: int| 0 <= j < i + 1 && #[trigger] v@[j]@ == y;
                        if j == i {
                            assert(string_set(out@).contains(v@[i as int]@));
                        }
                    }
                }
            }
        }
        i = i + 1;
    }
    assert(string_set(out@) =~= string_set(v@));
    out
}

/// The character of a decimal digit.
pub open spec fn digit_char(d: nat) -> char {
    if d == 0 { '0' } else if d == 1 { '1' } else if d == 2 { '2' } else if d == 3 { '3' }
    else if d == 4 { '4' } else if d == 5 { '5' } else if d == 6 { '6' } else if d == 7 { '7' }
    else if d == 8 { '8' } else { '9' }
}

/// The decimal notation of `n`, without sign or leading zeros.
pub open spec fn decimal(n: nat) -> Seq<char>
    decreases n,
{
    if n < 10 {
        seq![digit_char(n)]
    } else {
        decimal(n / 10) + seq![digit_char(n % 10)]
    }
}

/// The digit `d` as a one-character string.
fn digit_str(d: usize) -> (r: &'static str)
    requires
        d < 10,
    ensures
        r@ == seq![digit_char(d as nat)],
{
    proof {
        reveal_strlit("0");
        reveal_strlit("1");
        reveal_strlit("2");
        reveal_strlit("3");
        reveal_strlit("4");
        reveal_strlit("5");
        reveal_strlit("6");
        reveal_strlit("7");
        reveal_strlit("8");
        reveal_strlit("9");
    }
    if d == 0 { "0" } else if d == 1 { "1" } else if d == 2 { "2" } else if d == 3 { "3" }
    else if d == 4 { "4" } else if d == 5 { "5" } else if d == 6 { "6" } else if d == 7 { "7" }
    else if d == 8 { "8" } else { "9" }
}

/// The decimal notation of `n`.
pub fn to_decimal(n: usize) -> (r: String)
    ensures
        r@ == decimal(n as nat),
    decreases n,
{
    if n < 10 {
        String::from_str(digit_str(n))
    } else {
        to_decimal(n / 10).concat(digit_str(n % 10))
    }
}

} // verus!
