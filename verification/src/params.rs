//! Parameter values and parameter-space expansion: each declared value is
//! canonicalized to text, and the named value lists are expanded into the
//! full cartesian product of concrete combinations.

use vstd::prelude::*;

use crate::text::{i64_to_dec, spec_idec};

verus! {

/// One scalar parameter value. Value kinds the engine does not model
/// numerically or textually (for example floating-point numbers) are
/// carried as their already-rendered text in `Other`.
pub enum ParamValue {
    Int(i64),
    Str(String),
    Other(String),
}

/// Canonical text of a parameter value: decimal text for an integer, the
/// string itself for a string, the carried text otherwise.
pub open spec fn spec_canonical(v: ParamValue) -> Seq<char> {
    match v {
        ParamValue::Int(i) => spec_idec(i as int),
        ParamValue::Str(s) => s@,
        ParamValue::Other(t) => t@,
    }
}

/// Canonical text of one parameter value.
pub fn value_to_string(v: &ParamValue) -> (r: String)
    ensures
        r@ == spec_canonical(*v),
{
    match v {
        ParamValue::Int(i) => i64_to_dec(*i),
        ParamValue::Str(s) => s.clone(),
        ParamValue::Other(t) => t.clone(),
    }
}

/// Every combination from `rest`, with `v` prepended.
pub open spec fn spec_prepend_all(v: Seq<char>, rest: Seq<Seq<Seq<char>>>) -> Seq<Seq<Seq<char>>>
    decreases rest.len(),
{
    if rest.len() == 0 {
        Seq::empty()
    } else {
        seq![seq![v] + rest[0]] + spec_prepend_all(v, rest.drop_first())
    }
}

/// Cartesian product step: each value of `vs` prepended to each
/// combination of `rest`, values of `vs` in order, slowest first.
pub open spec fn spec_cross(vs: Seq<Seq<char>>, rest: Seq<Seq<Seq<char>>>) -> Seq<Seq<Seq<char>>>
    decreases vs.len(),
{
    if vs.len() == 0 {
        Seq::empty()
    } else {
        spec_prepend_all(vs[0], rest) + spec_cross(vs.drop_first(), rest)
    }
}

/// The cartesian product of the value lists, in declaration order with the
/// last list varying fastest. The product of no lists is the one empty
/// combination.
pub open spec fn spec_product(lists: Seq<Seq<Seq<char>>>) -> Seq<Seq<Seq<char>>>
    decreases lists.len(),
{
    if lists.len() == 0 {
        seq![Seq::<Seq<char>>::empty()]
    } else {
        spec_cross(lists[0], spec_product(lists.drop_first()))
    }
}

/// The length of a product of lists is the product of the lists' lengths.
pub open spec fn spec_product_len(lists: Seq<Seq<Seq<char>>>) -> nat
    decreases lists.len(),
{
    if lists.len() == 0 {
        1
    } else {
        lists[0].len() * spec_product_len(lists.drop_first())
    }
}

proof fn lemma_prepend_all_len(v: Seq<char>, rest: Seq<Seq<Seq<char>>>)
    ensures
        spec_prepend_all(v, rest).len() == rest.len(),
    decreases rest.len(),
{
    if rest.len() > 0 {
        lemma_prepend_all_len(v, rest.drop_first());
    }
}

proof fn lemma_cross_len(vs: Seq<Seq<char>>, rest: Seq<Seq<Seq<char>>>)
    ensures
        spec_cross(vs, rest).len() == vs.len() * rest.len(),
    decreases vs.len(),
{
    if vs.len() == 0 {
    } else {
        lemma_prepend_all_len(vs[0], rest);
        lemma_cross_len(vs.drop_first(), rest);
        assert(vs.len() * rest.len() == rest.len() + (vs.len() - 1) * rest.len())
            by (nonlinear_arith);
    }
}

/// The Expander yields exactly the product of the list sizes: the number
/// of combinations is the product of the lengths of the value lists, so an
/// empty list for any key yields zero combinations.
pub proof fn lemma_product_count(lists: Seq<Seq<Seq<char>>>)
    ensures
        spec_product(lists).len() == spec_product_len(lists),
        (exists|i: int| 0 <= i < lists.len() && lists[i].len() == 0) ==> spec_product(lists).len()
            == 0,
    decreases lists.len(),
{
    if lists.len() == 0 {
    } else {
        lemma_product_count(lists.drop_first());
        lemma_cross_len(lists[0], spec_product(lists.drop_first()));
        if exists|i: int| 0 <= i < lists.len() && lists[i].len() == 0 {
            let i = choose|i: int| 0 <= i < lists.len() && lists[i].len() == 0;
            if i == 0 {
                assert(lists[0].len() * spec_product(lists.drop_first()).len() == 0);
            } else {
                assert(lists.drop_first()[i - 1].len() == 0);
                assert(spec_product(lists.drop_first()).len() == 0);
                assert(lists[0].len() * 0 == 0) by (nonlinear_arith);
            }
        }
    }
}

/// Every combination in the product has one value per list.
pub proof fn lemma_product_combo_len(lists: Seq<Seq<Seq<char>>>, c: int)
    requires
        0 <= c < spec_product(lists).len(),
    ensures
        spec_product(lists)[c].len() == lists.len(),
    decreases lists.len(), 0int, 0int,
{
    if lists.len() == 0 {
    } else {
        lemma_cross_combo_len(lists[0], spec_product(lists.drop_first()), lists.drop_first(), c);
    }
}

proof fn lemma_cross_combo_len(
    vs: Seq<Seq<char>>,
    rest: Seq<Seq<Seq<char>>>,
    lists: Seq<Seq<Seq<char>>>,
    c: int,
)
    requires
        rest == spec_product(lists),
        0 <= c < spec_cross(vs, rest).len(),
    ensures
        spec_cross(vs, rest)[c].len() == lists.len() + 1,
    decreases lists.len(), 1int, vs.len(),
{
    if vs.len() > 0 {
        lemma_prepend_all_len(vs[0], rest);
        if c < rest.len() {
            lemma_prepend_all_index(vs[0], rest, c);
            lemma_product_combo_len(lists, c);
        } else {
            lemma_cross_combo_len(vs.drop_first(), rest, lists, c - rest.len());
        }
    }
}

proof fn lemma_prepend_all_index(v: Seq<char>, rest: Seq<Seq<Seq<char>>>, c: int)
    requires
        0 <= c < rest.len(),
    ensures
        spec_prepend_all(v, rest).len() == rest.len(),
        spec_prepend_all(v, rest)[c] == seq![v] + rest[c],
    decreases c,
{
    lemma_prepend_all_len(v, rest);
    if c > 0 {
        lemma_prepend_all_index(v, rest.drop_first(), c - 1);
        lemma_prepend_all_len(v, rest.drop_first());
    }
}

/// One combination: `head` followed by the values of `tail`.
fn cons_combo(head: &String, tail: &Vec<String>) -> (r: Vec<String>)
    ensures
        r.deep_view() == seq![head@] + tail.deep_view(),
{
    let mut r: Vec<String> = Vec::new();
    r.push(head.clone());
    let n = tail.len();
    let mut i: usize = 0;
    while i < n
        invariant
            n == tail.len(),
            i <= n,
            r.len() == i + 1,
            r.deep_view()[0] == head@,
            forall|j: int| 0 <= j < i ==> r.deep_view()[j + 1] == tail.deep_view()[j],
        decreases n - i,
    {
        r.push(tail[i].clone());
        i += 1;
    }
    proof {
        assert(r.deep_view() =~= seq![head@] + tail.deep_view());
    }
    r
}

/// The cartesian product of the value lists from position `from` on: every
/// way of choosing one value from each list, values of earlier lists
/// varying slowest and the last list fastest.
fn expand_lists_from(lists: &Vec<Vec<String>>, from: usize) -> (r: Vec<Vec<String>>)
    requires
        from <= lists.len(),
    ensures
        r.deep_view() == spec_product(lists.deep_view().skip(from as int)),
    decreases lists.len() - from,
{
    let ghost suffix = lists.deep_view().skip(from as int);
    if from == lists.len() {
        let mut r: Vec<Vec<String>> = Vec::new();
        r.push(Vec::new());
        proof {
            assert(suffix.len() == 0);
            assert(spec_product(suffix) == seq![Seq::<Seq<char>>::empty()]);
            assert(r.deep_view().len() == 1);
            assert(r.deep_view()[0] =~= Seq::<Seq<char>>::empty());
            assert(r.deep_view() =~= spec_product(suffix));
        }
        r
    } else {
        let rest = expand_lists_from(lists, from + 1);
        proof {
            assert(lists.deep_view().skip(from + 1) =~= suffix.drop_first());
        }
        let ghost spec_rest = rest.deep_view();
        let mut r: Vec<Vec<String>> = Vec::new();
        let vs = &lists[from];
        proof {
            assert(vs.deep_view() == suffix[0]);
        }
        let vn = vs.len();
        let mut vi: usize = 0;
        proof {
            assert(spec_cross(vs.deep_view().take(0), spec_rest) =~= Seq::<Seq<Seq<char>>>::empty());
            assert(r.deep_view() =~= Seq::<Seq<Seq<char>>>::empty());
        }
        while vi < vn
            invariant
                vn == vs.len(),
                vi <= vn,
                vs.deep_view() == suffix[0],
                spec_rest == rest.deep_view(),
                spec_rest == spec_product(suffix.drop_first()),
                r.deep_view() == spec_cross(vs.deep_view().take(vi as int), spec_rest),
            decreases vn - vi,
        {
            let ghost r0 = r.deep_view();
            let rn = rest.len();
            let mut ri: usize = 0;
            proof {
                let v = vs.deep_view()[vi as int];
                assert(spec_prepend_all(v, spec_rest.take(0)) =~= Seq::<Seq<Seq<char>>>::empty());
                assert(r.deep_view() =~= r0 + spec_prepend_all(v, spec_rest.take(0)));
            }
            while ri < rn
                invariant
                    rn == rest.len(),
                    ri <= rn,
                    vi < vn,
                    vn == vs.len(),
                    spec_rest == rest.deep_view(),
                    vs.deep_view() == suffix[0],
                    r.deep_view() == r0 + spec_prepend_all(
                        vs.deep_view()[vi as int],
                        spec_rest.take(ri as int),
                    ),
                decreases rn - ri,
            {
                let combo = cons_combo(&vs[vi], &rest[ri]);
                let ghost pre = r.deep_view();
                r.push(combo);
                proof {
                    let v = vs.deep_view()[vi as int];
                    lemma_prepend_all_take_push(v, spec_rest, ri as int);
                    lemma_prepend_all_len(v, spec_rest.take(ri as int));
                    lemma_prepend_all_len(v, spec_rest.take(ri + 1));
                    assert(combo.deep_view() == seq![v] + spec_rest[ri as int]);
                    assert(r.deep_view() =~= pre.push(combo.deep_view()));
                    assert(pre.push(combo.deep_view()) =~= r0 + spec_prepend_all(
                        v,
                        spec_rest.take(ri + 1),
                    ));
                    assert(r.deep_view() == r0 + spec_prepend_all(v, spec_rest.take(ri + 1)));
                }
                ri += 1;
            }
            proof {
                let v = vs.deep_view()[vi as int];
                assert(spec_rest.take(rn as int) =~= spec_rest);
                lemma_cross_take_step(vs.deep_view(), spec_rest, vi as int);
                assert(r.deep_view() =~= spec_cross(vs.deep_view().take(vi + 1), spec_rest));
            }
            vi += 1;
        }
        proof {
            assert(vs.deep_view().take(vn as int) =~= vs.deep_view());
            assert(suffix.drop_first() == lists.deep_view().skip(from + 1));
            assert(spec_product(suffix) == spec_cross(suffix[0], spec_product(
                suffix.drop_first(),
            )));
        }
        r
    }
}

/// Appending one more prepended combination extends the prefix image.
proof fn lemma_prepend_all_take_push(v: Seq<char>, rest: Seq<Seq<Seq<char>>>, i: int)
    requires
        0 <= i < rest.len(),
    ensures
        spec_prepend_all(v, rest.take(i + 1)) == spec_prepend_all(v, rest.take(i)).push(
            seq![v] + rest[i],
        ),
    decreases i,
{
    if i == 0 {
        assert(rest.take(1).drop_first() =~= Seq::<Seq<Seq<char>>>::empty());
        assert(rest.take(1)[0] == rest[0]);
        assert(spec_prepend_all(v, rest.take(1).drop_first()) =~= Seq::<Seq<Seq<char>>>::empty());
        assert(spec_prepend_all(v, rest.take(0)) =~= Seq::<Seq<Seq<char>>>::empty());
        assert(spec_prepend_all(v, rest.take(1)) =~= spec_prepend_all(v, rest.take(0)).push(
            seq![v] + rest[0],
        ));
    } else {
        lemma_prepend_all_take_push(v, rest.drop_first(), i - 1);
        assert(rest.take(i + 1).drop_first() =~= rest.drop_first().take(i));
        assert(rest.take(i).drop_first() =~= rest.drop_first().take(i - 1));
        assert(rest.take(i + 1)[0] == rest[0]);
        assert(rest.take(i)[0] == rest[0]);
        assert(rest.drop_first()[i - 1] == rest[i]);
        assert(spec_prepend_all(v, rest.take(i + 1)) =~= spec_prepend_all(v, rest.take(i)).push(
            seq![v] + rest[i],
        ));
    }
}

/// Extending the value prefix by one value appends that value's block.
proof fn lemma_cross_take_step(vs: Seq<Seq<char>>, rest: Seq<Seq<Seq<char>>>, i: int)
    requires
        0 <= i < vs.len(),
    ensures
        spec_cross(vs.take(i + 1), rest) == spec_cross(vs.take(i), rest) + spec_prepend_all(
            vs[i],
            rest,
        ),
    decreases i,
{
    if i == 0 {
        assert(vs.take(1).drop_first() =~= Seq::<Seq<char>>::empty());
        assert(vs.take(1)[0] == vs[0]);
        assert(spec_cross(vs.take(1).drop_first(), rest) =~= Seq::<Seq<Seq<char>>>::empty());
        assert(spec_cross(vs.take(0), rest) =~= Seq::<Seq<Seq<char>>>::empty());
        assert(spec_cross(vs.take(1), rest) =~= spec_cross(vs.take(0), rest) + spec_prepend_all(
            vs[0],
            rest,
        ));
    } else {
        lemma_cross_take_step(vs.drop_first(), rest, i - 1);
        assert(vs.take(i + 1).drop_first() =~= vs.drop_first().take(i));
        assert(vs.take(i).drop_first() =~= vs.drop_first().take(i - 1));
        assert(vs.take(i + 1)[0] == vs[0]);
        assert(vs.take(i)[0] == vs[0]);
        assert(vs.drop_first()[i - 1] == vs[i]);
        assert(spec_cross(vs.take(i + 1), rest) =~= spec_cross(vs.take(i), rest)
            + spec_prepend_all(vs[i], rest));
    }
}

/// The full cartesian product of the value lists.
pub fn expand_lists(lists: &Vec<Vec<String>>) -> (r: Vec<Vec<String>>)
    ensures
        r.deep_view() == spec_product(lists.deep_view()),
{
    let r = expand_lists_from(lists, 0);
    proof {
        assert(lists.deep_view().skip(0) =~= lists.deep_view());
    }
    r
}

} // verus!
