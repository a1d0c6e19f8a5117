//! Small verified helpers on strings: joining a list with a separator,
//! comparing string slices by their characters, and lemmas about the
//! views of a list of strings.

use vstd::prelude::*;

verus! {

/// The characters of `parts` joined with `sep` between consecutive parts.
pub open spec fn join_with(parts: Seq<Seq<char>>, sep: Seq<char>) -> Seq<char>
    decreases parts.len(),
{
    if parts.len() == 0 {
        Seq::empty()
    } else if parts.len() == 1 {
        parts[0]
    } else {
        join_with(parts.drop_last(), sep) + sep + parts.last()
    }
}

/// The views of the strings of `v`, in order.
pub open spec fn views_of(v: Seq<String>) -> Seq<Seq<char>> {
    v.map_values(|s: String| s@)
}

/// Pushing a string onto a list pushes its view onto the views.
pub proof fn lemma_views_of_push(a: Seq<String>, x: String)
    ensures
        views_of(a.push(x)) == views_of(a).push(x@),
{
    assert forall|j: int| 0 <= j < a.push(x).len() implies views_of(a.push(x))[j] == views_of(
        a,
    ).push(x@)[j] by {
        if j < a.len() {
            assert(a.push(x)[j] == a[j]);
            assert(views_of(a).push(x@)[j] == views_of(a)[j]);
        } else {
            assert(a.push(x)[j] == x);
            assert(views_of(a).push(x@)[j] == x@);
        }
    }
    assert(views_of(a.push(x)) =~= views_of(a).push(x@));
}

/// The views of a concatenation are the concatenated views.
pub proof fn lemma_views_of_concat(a: Seq<String>, b: Seq<String>)
    ensures
        views_of(a + b) == views_of(a) + views_of(b),
{
    assert forall|j: int| 0 <= j < (a + b).len() implies views_of(a + b)[j] == (views_of(a)
        + views_of(b))[j] by {
        if j < a.len() {
            assert((a + b)[j] == a[j]);
        } else {
            assert((a + b)[j] == b[j - a.len()]);
        }
    }
    assert(views_of(a + b) =~= views_of(a) + views_of(b));
}

/// Whether `a` and `b` hold the same characters.
pub fn str_eq(a: &str, b: &str) -> (r: bool)
    ensures
        r == (a@ == b@),
{
    let x: String = a.to_owned();
    let y: String = b.to_owned();
    x == y
}

/// Whether some string of `v` holds the characters of `s`.
pub fn contains_name(v: &Vec<String>, s: &str) -> (r: bool)
    ensures
        r == views_of(v@).contains(s@),
{
    let mut i: usize = 0;
    while i < v.len()
        invariant
            0 <= i <= v@.len(),
            forall|j: int| 0 <= j < i ==> v@[j]@ != s@,
        decreases v@.len() - i,
    {
        let p: &String = &v[i];
        if str_eq(p.as_str(), s) {
            proof {
                assert(views_of(v@)[i as int] == s@);
                assert(views_of(v@).contains(s@));
            }
            return true;
        }
        i = i + 1;
    }
    proof {
        assert forall|j: int| 0 <= j < views_of(v@).len() implies views_of(v@)[j] != s@ by {
            assert(v@[j]@ != s@);
        }
        assert(!views_of(v@).contains(s@));
    }
    false
}

/// Joins the strings of `parts`, with `sep` between consecutive parts.
pub fn join_all(parts: &Vec<String>, sep: &str) -> (r: String)
    ensures
        r@ == join_with(views_of(parts@), sep@),
{
    let ghost vs = views_of(parts@);
    let mut r = String::new();
    let mut i: usize = 0;
    while i < parts.len()
        invariant
            0 <= i <= parts@.len(),
            vs == views_of(parts@),
            vs.len() == parts@.len(),
            r@ == join_with(vs.take(i as int), sep@),
        decreases parts@.len() - i,
    {
        if i > 0 {
            r.append(sep);
        }
        let p: &String = &parts[i];
        r.append(p.as_str());
        proof {
            assert(vs[i as int] == parts@[i as int]@);
            assert(vs.take(i as int + 1).drop_last() =~= vs.take(i as int));
            assert(vs.take(i as int + 1).last() == vs[i as int]);
        }
        i = i + 1;
    }
    proof {
        assert(vs.take(parts@.len() as int) =~= vs);
    }
    r
}

/// Copies a list of strings; the views are kept.
pub fn clone_names(v: &Vec<String>) -> (r: Vec<String>)
    ensures
        views_of(r@) == views_of(v@),
{
    let mut r: Vec<String> = Vec::new();
    let mut i: usize = 0;
    while i < v.len()
        invariant
            0 <= i <= v@.len(),
            views_of(r@) == views_of(v@).take(i as int),
        decreases v@.len() - i,
    {
        let ghost r0 = r@;
        r.push(v[i].clone());
        proof {
            assert(r@ == r0.push(v@[i as int]));
            lemma_views_of_push(r0, v@[i as int]);
            assert(views_of(v@).take(i as int).push(v@[i as int]@) =~= views_of(v@).take(
                i as int + 1,
            ));
        }
        i = i + 1;
    }
    proof {
        assert(views_of(v@).take(v@.len() as int) =~= views_of(v@));
    }
    r
}

} // verus!
