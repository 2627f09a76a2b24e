//! Token substitution: `{name}` placeholders in a template are resolved
//! against a substitution mapping in a single left-to-right pass, so the
//! result depends only on the key-to-value mapping and never on entry
//! order, and substituted text is never re-scanned.

use vstd::prelude::*;

use crate::text::str_eq;

verus! {

/// A mapping from token name to resolved text, built fresh per parameter
/// combination.
pub struct SubstitutionMap {
    entries: Vec<(String, String)>,
}

/// Value bound to `k` by the first matching entry, if any.
pub open spec fn spec_lookup(entries: Seq<(Seq<char>, Seq<char>)>, k: Seq<char>) -> Option<
    Seq<char>,
>
    decreases entries.len(),
{
    if entries.len() == 0 {
        None
    } else if entries[0].0 == k {
        Some(entries[0].1)
    } else {
        spec_lookup(entries.drop_first(), k)
    }
}

/// If the first `i` entries do not bind `k`, lookup is decided by the rest.
proof fn lemma_lookup_skip(entries: Seq<(Seq<char>, Seq<char>)>, k: Seq<char>, i: int)
    requires
        0 <= i <= entries.len(),
        forall|j: int| 0 <= j < i ==> entries[j].0 != k,
    ensures
        spec_lookup(entries, k) == spec_lookup(entries.skip(i), k),
    decreases i,
{
    if i > 0 {
        lemma_lookup_skip(entries.drop_first(), k, i - 1);
        assert(entries.drop_first().skip(i - 1) =~= entries.skip(i));
    } else {
        assert(entries.skip(0) =~= entries);
    }
    assert(spec_lookup(entries, k) =~= spec_lookup(entries.skip(i), k));
}

/// Appending an entry only affects keys the sequence does not already bind.
proof fn lemma_lookup_push(
    entries: Seq<(Seq<char>, Seq<char>)>,
    e: (Seq<char>, Seq<char>),
    k: Seq<char>,
)
    ensures
        spec_lookup(entries.push(e), k) == if spec_lookup(entries, k) is Some {
            spec_lookup(entries, k)
        } else if e.0 == k {
            Some(e.1)
        } else {
            None
        },
    decreases entries.len(),
{
    assert(entries.push(e)[0] == if entries.len() == 0 {
        e
    } else {
        entries[0]
    });
    if entries.len() == 0 {
        assert(entries.push(e).drop_first() =~= Seq::<(Seq<char>, Seq<char>)>::empty());
        assert(spec_lookup(entries.push(e).drop_first(), k) is None);
    } else {
        lemma_lookup_push(entries.drop_first(), e, k);
        assert(entries.push(e).drop_first() =~= entries.drop_first().push(e));
        assert(spec_lookup(entries.push(e).drop_first(), k) == spec_lookup(
            entries.drop_first().push(e),
            k,
        ));
        assert(spec_lookup(entries, k) == if entries[0].0 == k {
            Some(entries[0].1)
        } else {
            spec_lookup(entries.drop_first(), k)
        });
    }
    assert(spec_lookup(entries.push(e), k) =~= if spec_lookup(entries, k) is Some {
        spec_lookup(entries, k)
    } else if e.0 == k {
        Some(e.1)
    } else {
        None
    });
}

/// The mapping a sequence of entries denotes: each key goes to the value
/// of its first matching entry.
pub open spec fn map_of(entries: Seq<(Seq<char>, Seq<char>)>) -> Map<Seq<char>, Seq<char>> {
    Map::new(
        |k: Seq<char>| spec_lookup(entries, k) is Some,
        |k: Seq<char>| spec_lookup(entries, k)->Some_0,
    )
}

proof fn lemma_map_of_push(orig: Seq<(Seq<char>, Seq<char>)>, k: Seq<char>, v: Seq<char>)
    requires
        forall|j: int| 0 <= j < orig.len() ==> orig[j].0 != k,
    ensures
        map_of(orig.push((k, v))) == map_of(orig).insert(k, v),
{
    let newdeep = orig.push((k, v));
    assert forall|key: Seq<char>|
        #![trigger spec_lookup(newdeep, key)]
        spec_lookup(newdeep, key) == (if key == k {
            Some(v)
        } else {
            spec_lookup(orig, key)
        }) by {
        lemma_lookup_push(orig, (k, v), key);
        if key == k {
            lemma_lookup_skip(orig, k, orig.len() as int);
            assert(orig.skip(orig.len() as int) =~= Seq::<(Seq<char>, Seq<char>)>::empty());
            assert(spec_lookup(orig.skip(orig.len() as int), k) is None);
        }
    }
    assert(map_of(newdeep) =~= map_of(orig).insert(k, v));
}

proof fn lemma_map_of_update(orig: Seq<(Seq<char>, Seq<char>)>, i: int, k: Seq<char>, v: Seq<char>)
    requires
        0 <= i < orig.len(),
        forall|j: int| 0 <= j < i ==> orig[j].0 != k,
        orig[i].0 == k,
    ensures
        map_of(orig.update(i, (k, v))) == map_of(orig).insert(k, v),
{
    let newdeep = orig.update(i, (k, v));
    assert forall|key: Seq<char>|
        #![trigger spec_lookup(newdeep, key)]
        spec_lookup(newdeep, key) == (if key == k {
            Some(v)
        } else {
            spec_lookup(orig, key)
        }) by {
        lemma_lookup_update(orig, i, (k, v), key);
    }
    assert(map_of(newdeep) =~= map_of(orig).insert(k, v));
}

/// Replacing the first entry bound to a key rebinds that key and nothing
/// else.
proof fn lemma_lookup_update(
    entries: Seq<(Seq<char>, Seq<char>)>,
    i: int,
    e: (Seq<char>, Seq<char>),
    k: Seq<char>,
)
    requires
        0 <= i < entries.len(),
        forall|j: int| 0 <= j < i ==> entries[j].0 != e.0,
        entries[i].0 == e.0,
    ensures
        spec_lookup(entries.update(i, e), k) == if e.0 == k {
            Some(e.1)
        } else {
            spec_lookup(entries, k)
        },
    decreases i,
{
    if i == 0 {
        if entries[0].0 != k {
            assert(entries.update(0, e).drop_first() =~= entries.drop_first());
        }
    } else {
        lemma_lookup_update(entries.drop_first(), i - 1, e, k);
        assert(entries.update(i, e).drop_first() =~= entries.drop_first().update(i - 1, e));
    }
    assert(spec_lookup(entries.update(i, e), k) =~= if e.0 == k {
        Some(e.1)
    } else {
        spec_lookup(entries, k)
    });
}

impl SubstitutionMap {
    /// The mapping this collection of entries denotes: each key goes to the
    /// value of its first matching entry.
    pub closed spec fn as_map(self) -> Map<Seq<char>, Seq<char>> {
        map_of(self.entries.deep_view())
    }

    /// An empty mapping.
    pub fn new() -> (r: SubstitutionMap)
        ensures
            r.as_map() == Map::<Seq<char>, Seq<char>>::empty(),
    {
        let r = SubstitutionMap { entries: Vec::new() };
        proof {
            assert(r.as_map() =~= Map::<Seq<char>, Seq<char>>::empty());
        }
        r
    }

    /// Binds `k` to `v`, replacing any earlier binding of `k`.
    pub fn insert(&mut self, k: String, v: String)
        ensures
            final(self).as_map() == old(self).as_map().insert(k@, v@),
    {
        let ghost orig = self.entries.deep_view();
        proof {
            assert(orig == old(self).entries.deep_view());
        }
        let n = self.entries.len();
        let mut i: usize = 0;
        while i < n
            invariant
                n == self.entries.len(),
                i <= n,
                self.entries.deep_view() == orig,
                orig == old(self).entries.deep_view(),
                forall|j: int| 0 <= j < i ==> orig[j].0 != k@,
            decreases n - i,
        {
            if str_eq(self.entries[i].0.as_str(), k.as_str()) {
                proof {
                    assert(orig[i as int].0 == k@);
                }
                self.entries.set(i, (k, v));
                proof {
                    assert(self.entries.deep_view() =~= orig.update(i as int, (k@, v@)));
                    lemma_map_of_update(orig, i as int, k@, v@);
                }
                return ;
            }
            i += 1;
        }
        self.entries.push((k, v));
        proof {
            assert(self.entries.deep_view() =~= orig.push((k@, v@)));
            lemma_map_of_push(orig, k@, v@);
        }
    }

    /// Value bound to `k`, if any.
    pub fn get(&self, k: &str) -> (r: Option<&String>)
        ensures
            r.is_some() == self.as_map().contains_key(k@),
            r matches Some(v) ==> self.as_map()[k@] == v@,
    {
        let n = self.entries.len();
        let mut i: usize = 0;
        while i < n
            invariant
                n == self.entries.len(),
                i <= n,
                forall|j: int| 0 <= j < i ==> self.entries.deep_view()[j].0 != k@,
            decreases n - i,
        {
            if str_eq(self.entries[i].0.as_str(), k) {
                proof {
                    lemma_lookup_skip(self.entries.deep_view(), k@, i as int);
                    assert(self.entries.deep_view().skip(i as int)[0]
                        == self.entries.deep_view()[i as int]);
                }
                return Some(&self.entries[i].1);
            }
            i += 1;
        }
        proof {
            lemma_lookup_skip(self.entries.deep_view(), k@, n as int);
        }
        None
    }
}

/// A brace character starts or ends a placeholder.
pub open spec fn is_brace(c: char) -> bool {
    c == '{' || c == '}'
}

/// Position of the first brace at or after `i`, if any.
pub open spec fn find_brace(s: Seq<char>, i: int) -> Option<int>
    decreases s.len() - i,
{
    if i < 0 || i >= s.len() {
        None
    } else if is_brace(s[i]) {
        Some(i)
    } else {
        find_brace(s, i + 1)
    }
}

proof fn lemma_find_brace_range(s: Seq<char>, i: int)
    ensures
        find_brace(s, i) matches Some(j) ==> i <= j < s.len() && is_brace(s[j]),
    decreases s.len() - i,
{
    if 0 <= i < s.len() && !is_brace(s[i]) {
        lemma_find_brace_range(s, i + 1);
    }
}

proof fn lemma_find_brace_none(s: Seq<char>, i: int)
    requires
        0 <= i,
        forall|k: int| i <= k < s.len() ==> !is_brace(s[k]),
    ensures
        find_brace(s, i) is None,
    decreases s.len() - i,
{
    if i < s.len() {
        lemma_find_brace_none(s, i + 1);
    }
}

proof fn lemma_find_brace_some(s: Seq<char>, i: int, j: int)
    requires
        0 <= i <= j < s.len(),
        is_brace(s[j]),
        forall|k: int| i <= k < j ==> !is_brace(s[k]),
    ensures
        find_brace(s, i) == Some(j),
    decreases j - i,
{
    if i < j {
        lemma_find_brace_some(s, i + 1, j);
    }
}

/// The template with every `{key}` placeholder whose key the mapping binds
/// replaced by the bound value, in one pass over the template text: an
/// opening brace starts a placeholder ending at the nearest brace; if that
/// brace closes the placeholder and the mapping binds the enclosed name,
/// the value is emitted (and never re-scanned), otherwise the text stands
/// unchanged and scanning resumes.
pub open spec fn spec_subst(s: Seq<char>, m: Map<Seq<char>, Seq<char>>) -> Seq<char>
    decreases s.len(),
    via spec_subst_decreases
{
    if s.len() == 0 {
        Seq::empty()
    } else if s[0] != '{' {
        seq![s[0]] + spec_subst(s.skip(1), m)
    } else {
        match find_brace(s, 1) {
            Option::None => s,
            Option::Some(j) => {
                if s[j] == '{' {
                    s.subrange(0, j) + spec_subst(s.skip(j), m)
                } else {
                    let key = s.subrange(1, j);
                    if m.contains_key(key) {
                        m[key] + spec_subst(s.skip(j + 1), m)
                    } else {
                        s.subrange(0, j + 1) + spec_subst(s.skip(j + 1), m)
                    }
                }
            },
        }
    }
}

#[via_fn]
proof fn spec_subst_decreases(s: Seq<char>, m: Map<Seq<char>, Seq<char>>) {
    lemma_find_brace_range(s, 1);
}

/// The template with every `{key}` placeholder resolved against `map`.
///
/// The result is a function of the template and of `map.as_map()` alone,
/// so it cannot depend on the order in which the map's entries were added.
pub fn replace_tokens(input: &str, map: &SubstitutionMap) -> (r: String)
    ensures
        r@ == spec_subst(input@, map.as_map()),
{
    let ghost s = input@;
    let ghost m = map.as_map();
    let n = input.unicode_len();
    let mut out = String::new();
    let mut i: usize = 0;
    proof {
        assert(s.skip(0) =~= s);
        assert(Seq::<char>::empty() + spec_subst(s, m) =~= spec_subst(s, m));
    }
    while i < n
        invariant
            n == s.len(),
            s == input@,
            m == map.as_map(),
            i <= n,
            spec_subst(s, m) == out@ + spec_subst(s.skip(i as int), m),
        decreases n - i,
    {
        let ghost rest = s.skip(i as int);
        let c = input.get_char(i);
        proof {
            assert(rest[0] == s[i as int]);
        }
        if c != '{' {
            let piece = input.substring_char(i, i + 1);
            out.append(piece);
            proof {
                assert(rest.skip(1) =~= s.skip(i + 1));
                assert(seq![rest[0]] =~= piece@);
                assert(spec_subst(rest, m) == piece@ + spec_subst(s.skip(i + 1), m));
                assert(spec_subst(s, m) =~= out@ + spec_subst(s.skip(i + 1), m));
            }
            i += 1;
        } else {
            let mut j: usize = i + 1;
            loop
                invariant
                    n == s.len(),
                    s == input@,
                    i + 1 <= j <= n,
                    forall|k: int| i + 1 <= k < j ==> !is_brace(s[k]),
                ensures
                    i + 1 <= j <= n,
                    forall|k: int| i + 1 <= k < j ==> !is_brace(s[k]),
                    j == n || is_brace(s[j as int]),
                decreases n - j,
            {
                if j >= n {
                    break ;
                }
                let cj = input.get_char(j);
                if cj == '{' || cj == '}' {
                    break ;
                }
                j += 1;
            }
            proof {
                assert(forall|k: int| 1 <= k < j - i ==> !is_brace(rest[k]));
            }
            if j == n {
                let piece = input.substring_char(i, n);
                out.append(piece);
                proof {
                    lemma_find_brace_none(rest, 1);
                    assert(piece@ =~= rest);
                    assert(s.skip(n as int) =~= Seq::<char>::empty());
                    assert(spec_subst(rest, m) == piece@ + spec_subst(s.skip(n as int), m));
                    assert(spec_subst(s, m) =~= out@ + spec_subst(s.skip(n as int), m));
                }
                i = n;
            } else {
                let cj = input.get_char(j);
                proof {
                    assert(rest[j - i] == s[j as int]);
                    lemma_find_brace_some(rest, 1, j - i);
                }
                if cj == '{' {
                    let piece = input.substring_char(i, j);
                    out.append(piece);
                    proof {
                        assert(rest.subrange(0, j - i) =~= piece@);
                        assert(rest.skip(j - i) =~= s.skip(j as int));
                        assert(spec_subst(rest, m) == piece@ + spec_subst(s.skip(j as int), m));
                        assert(spec_subst(s, m) =~= out@ + spec_subst(s.skip(j as int), m));
                    }
                    i = j;
                } else {
                    let key = input.substring_char(i + 1, j);
                    proof {
                        assert(rest.subrange(1, j - i) =~= key@);
                    }
                    match map.get(key) {
                        Option::Some(v) => {
                            out.append(v.as_str());
                            proof {
                                assert(rest.skip(j - i + 1) =~= s.skip(j + 1));
                                assert(spec_subst(rest, m) == v@ + spec_subst(s.skip(j + 1), m));
                                assert(spec_subst(s, m) =~= out@ + spec_subst(s.skip(j + 1), m));
                            }
                        },
                        Option::None => {
                            let piece = input.substring_char(i, j + 1);
                            out.append(piece);
                            proof {
                                assert(rest.subrange(0, j - i + 1) =~= piece@);
                                assert(rest.skip(j - i + 1) =~= s.skip(j + 1));
                                assert(spec_subst(rest, m) == piece@ + spec_subst(
                                    s.skip(j + 1),
                                    m,
                                ));
                                assert(spec_subst(s, m) =~= out@ + spec_subst(s.skip(j + 1), m));
                            }
                        },
                    }
                    i = j + 1;
                }
            }
        }
    }
    proof {
        assert(s.skip(n as int) =~= Seq::<char>::empty());
    }
    out
}

/// Substitution is order-independent: two substitution maps that denote
/// the same key-to-value mapping yield the same result on every template,
/// however their entries are arranged.
pub proof fn lemma_subst_order_independent(
    t: Seq<char>,
    m1: SubstitutionMap,
    m2: SubstitutionMap,
)
    requires
        m1.as_map() == m2.as_map(),
    ensures
        spec_subst(t, m1.as_map()) == spec_subst(t, m2.as_map()),
{
}

/// Bindings of distinct keys may be added in either order: the denoted
/// mapping, and with it every substitution result, is the same.
pub proof fn lemma_insert_order_irrelevant(
    m: Map<Seq<char>, Seq<char>>,
    k1: Seq<char>,
    v1: Seq<char>,
    k2: Seq<char>,
    v2: Seq<char>,
)
    requires
        k1 != k2,
    ensures
        m.insert(k1, v1).insert(k2, v2) == m.insert(k2, v2).insert(k1, v1),
{
    assert(m.insert(k1, v1).insert(k2, v2) =~= m.insert(k2, v2).insert(k1, v1));
}

} // verus!
