//! A small string-to-string map with insertion order kept: the base-variable
//! map and the placeholder substitution map are both values of this type.
use vstd::prelude::*;

verus! {

/// First value bound to key `k` in the pair sequence, if any.
pub open spec fn lookup(s: Seq<(Seq<char>, Seq<char>)>, k: Seq<char>) -> Option<Seq<char>>
    decreases s.len(),
{
    if s.len() == 0 {
        None
    } else if s[0].0 == k {
        Some(s[0].1)
    } else {
        lookup(s.drop_first(), k)
    }
}

pub open spec fn has_key(s: Seq<(Seq<char>, Seq<char>)>, k: Seq<char>) -> bool {
    lookup(s, k) is Some
}

/// Bind `k` to `v`: replace the binding in place if `k` is present,
/// append it otherwise.
pub open spec fn set_key(
    s: Seq<(Seq<char>, Seq<char>)>,
    k: Seq<char>,
    v: Seq<char>,
) -> Seq<(Seq<char>, Seq<char>)>
    decreases s.len(),
{
    if s.len() == 0 {
        seq![(k, v)]
    } else if s[0].0 == k {
        seq![(k, v)] + s.drop_first()
    } else {
        seq![s[0]] + set_key(s.drop_first(), k, v)
    }
}

/// `set_key` binds `k` to `v` and leaves every other key's binding alone.
pub proof fn lemma_lookup_set_key(
    s: Seq<(Seq<char>, Seq<char>)>,
    k: Seq<char>,
    v: Seq<char>,
    k2: Seq<char>,
)
    ensures
        lookup(set_key(s, k, v), k2) == if k2 == k {
            Some(v)
        } else {
            lookup(s, k2)
        },
    decreases s.len(),
{
    let r = set_key(s, k, v);
    if s.len() == 0 {
        assert(r.len() == 1 && r[0] == (k, v));
        assert(r.drop_first() =~= Seq::<(Seq<char>, Seq<char>)>::empty());
        if k2 == k {
            assert(lookup(r, k2) == Some(v));
        } else {
            assert(r[0].0 != k2);
            assert(lookup(r, k2) == lookup(r.drop_first(), k2));
            assert(lookup(r, k2) is None);
        }
    } else if s[0].0 == k {
        assert(r.len() == 1 + s.drop_first().len() && r[0] == (k, v));
        assert(r.drop_first() =~= s.drop_first());
        if k2 == k {
            assert(lookup(r, k2) == Some(v));
        } else {
            assert(lookup(r, k2) == lookup(s.drop_first(), k2));
            assert(lookup(s, k2) == lookup(s.drop_first(), k2));
        }
    } else {
        lemma_lookup_set_key(s.drop_first(), k, v, k2);
        assert(r.len() == 1 + set_key(s.drop_first(), k, v).len() && r[0] == s[0]);
        assert(r.drop_first() =~= set_key(s.drop_first(), k, v));
        if s[0].0 == k2 {
            assert(lookup(r, k2) == Some(s[0].1));
            assert(lookup(s, k2) == Some(s[0].1));
            assert(k2 != k);
        } else {
            assert(lookup(r, k2) == lookup(set_key(s.drop_first(), k, v), k2));
            assert(lookup(s, k2) == lookup(s.drop_first(), k2));
        }
    }
}

/// String-keyed map, insertion order kept, keys unique.
pub struct VarMap {
    entries: Vec<(String, String)>,
}

impl View for VarMap {
    type V = Seq<(Seq<char>, Seq<char>)>;

    closed spec fn view(&self) -> Seq<(Seq<char>, Seq<char>)> {
        self.entries@.map_values(|p: (String, String)| (p.0@, p.1@))
    }
}

impl VarMap {
    pub fn new() -> (r: VarMap)
        ensures
            r@ == Seq::<(Seq<char>, Seq<char>)>::empty(),
    {
        let r = VarMap { entries: Vec::new() };
        proof {
            assert(r@ =~= Seq::<(Seq<char>, Seq<char>)>::empty());
        }
        r
    }

    pub fn len(&self) -> (n: usize)
        ensures
            n == self@.len(),
    {
        self.entries.len()
    }

    pub fn key_at(&self, i: usize) -> (r: &String)
        requires
            i < self@.len(),
        ensures
            r@ == self@[i as int].0,
    {
        &self.entries[i].0
    }

    pub fn value_at(&self, i: usize) -> (r: &String)
        requires
            i < self@.len(),
        ensures
            r@ == self@[i as int].1,
    {
        &self.entries[i].1
    }

    pub fn get(&self, key: &String) -> (r: Option<&String>)
        ensures
            match r {
                Some(v) => lookup(self@, key@) == Some(v@),
                None => lookup(self@, key@) is None,
            },
    {
        let n = self.entries.len();
        proof {
            assert(self@.skip(0) =~= self@);
        }
        let mut i: usize = 0;
        while i < n
            invariant
                n == self@.len(),
                i <= n,
                lookup(self@, key@) == lookup(self@.skip(i as int), key@),
            decreases n - i,
        {
            proof {
                assert(self@.skip(i as int).drop_first() =~= self@.skip(i + 1));
                assert(self@.skip(i as int)[0] == self@[i as int]);
                assert(self@[i as int].0 == self.entries@[i as int].0@);
            }
            if self.entries[i].0 == *key {
                return Some(&self.entries[i].1);
            }
            proof {
                assert(lookup(self@.skip(i as int), key@) == lookup(self@.skip(i + 1), key@));
            }
            i = i + 1;
        }
        proof {
            assert(self@.skip(n as int) =~= Seq::<(Seq<char>, Seq<char>)>::empty());
        }
        None
    }

    pub fn contains_key(&self, key: &String) -> (r: bool)
        ensures
            r == has_key(self@, key@),
    {
        match self.get(key) {
            Some(_) => true,
            None => false,
        }
    }

    pub fn set(&mut self, key: &String, value: String)
        ensures
            final (self)@ == set_key(old(self)@, key@, value@),
    {
        let ghost orig = self@;
        let n = self.entries.len();
        let mut i: usize = 0;
        while i < n
            invariant
                orig == old(self)@,
                self@ == orig,
                n == self@.len(),
                i <= n,
                forall|m: int| 0 <= m < i ==> orig[m].0 != key@,
            decreases n - i,
        {
            proof {
                assert(orig[i as int].0 == self.entries@[i as int].0@);
            }
            if self.entries[i].0 == *key {
                proof {
                    assert(orig[i as int].0 == key@);
                }
                let pair = (key.clone(), value);
                self.entries.set(i, pair);
                proof {
                    assert(self@ =~= orig.update(i as int, (key@, value@)));
                    lemma_set_key_update(orig, key@, value@, i as int);
                }
                return ;
            }
            i = i + 1;
        }
        let pair = (key.clone(), value);
        self.entries.push(pair);
        proof {
            assert(self@ =~= orig + seq![(key@, value@)]);
            lemma_set_key_append(orig, key@, value@);
        }
    }
}

/// When `k` first occurs at index `i`, `set_key` is an in-place update.
proof fn lemma_set_key_update(s: Seq<(Seq<char>, Seq<char>)>, k: Seq<char>, v: Seq<char>, i: int)
    requires
        0 <= i < s.len(),
        s[i].0 == k,
        forall|m: int| 0 <= m < i ==> s[m].0 != k,
    ensures
        set_key(s, k, v) == s.update(i, (k, v)),
    decreases s.len(),
{
    if i == 0 {
        assert(set_key(s, k, v) =~= s.update(0, (k, v)));
    } else {
        assert(forall|m: int| 0 <= m < i - 1 ==> s.drop_first()[m].0 != k);
        lemma_set_key_update(s.drop_first(), k, v, i - 1);
        assert(set_key(s, k, v) =~= s.update(i, (k, v)));
    }
}

/// When `k` is absent, `set_key` appends the new binding.
proof fn lemma_set_key_append(s: Seq<(Seq<char>, Seq<char>)>, k: Seq<char>, v: Seq<char>)
    requires
        forall|m: int| 0 <= m < s.len() ==> s[m].0 != k,
    ensures
        set_key(s, k, v) == s + seq![(k, v)],
    decreases s.len(),
{
    if s.len() == 0 {
        assert(set_key(s, k, v) =~= s + seq![(k, v)]);
    } else {
        lemma_set_key_append(s.drop_first(), k, v);
        assert(set_key(s, k, v) =~= s + seq![(k, v)]);
    }
}

} // verus!
