//! The parsed command line: for each option that was given, its values in the
//! order they were given.

use vstd::prelude::*;

verus! {

/// One option of the command line with the values given for it.
pub struct MatchedOption {
    pub name: String,
    pub values: Vec<String>,
}

/// The options of a parsed command line. Where a name occurs twice, the first
/// occurrence is the one that counts.
pub struct Matches {
    pub options: Vec<MatchedOption>,
}

/// The views of a list of strings.
pub open spec fn strings_view(v: Seq<String>) -> Seq<Seq<char>> {
    v.map_values(|s: String| s@)
}

/// The values of the first option named `key` in `opts`.
pub open spec fn values_in(opts: Seq<MatchedOption>, key: Seq<char>) -> Option<Seq<Seq<char>>>
    decreases opts.len(),
{
    if opts.len() == 0 {
        None
    } else if opts[0].name@ == key {
        Some(strings_view(opts[0].values@))
    } else {
        values_in(opts.drop_first(), key)
    }
}

impl Matches {
    /// All values given for option `key`, or `None` where it was not given.
    pub open spec fn values_spec(&self, key: Seq<char>) -> Option<Seq<Seq<char>>> {
        values_in(self.options@, key)
    }

    /// The first value given for option `key`.
    pub open spec fn value_spec(&self, key: Seq<char>) -> Option<Seq<char>> {
        match self.values_spec(key) {
            Some(vs) => if vs.len() > 0 {
                Some(vs[0])
            } else {
                None
            },
            None => None,
        }
    }

    /// A command line with no options.
    pub fn empty() -> (m: Matches)
        ensures
            m.options@.len() == 0,
            forall|k: Seq<char>| m.values_spec(k) is None,
    {
        Matches { options: Vec::new() }
    }

    /// Adds option `name` with `values` after the options already there.
    pub fn push(&mut self, name: String, values: Vec<String>)
        ensures
            final(self).options@.len() == old(self).options@.len() + 1,
            forall|k: Seq<char>|
                #[trigger] final(self).values_spec(k) == if old(self).values_spec(k) is Some {
                    old(self).values_spec(k)
                } else if k == name@ {
                    Some(strings_view(values@))
                } else {
                    None
                },
    {
        let ghost before = self.options@;
        let opt = MatchedOption { name, values };
        self.options.push(opt);
        proof {
            assert forall|k: Seq<char>|
                #[trigger] values_in(self.options@, k) == if values_in(before, k) is Some {
                    values_in(before, k)
                } else if k == self.options@.last().name@ {
                    Some(strings_view(self.options@.last().values@))
                } else {
                    None
                } by {
                lemma_values_in_push(before, self.options@.last(), k);
                assert(before.push(self.options@.last()) =~= self.options@);
            }
        }
    }

    /// Index of the first option named `key`.
    fn find(&self, key: &str) -> (r: Option<usize>)
        ensures
            match r {
                Some(i) => i < self.options@.len() && self.values_spec(key@) == Some(
                    strings_view(self.options@[i as int].values@),
                ),
                None => self.values_spec(key@) is None,
            },
    {
        let k = String::from_str(key);
        let n = self.options.len();
        let mut i: usize = 0;
        assert(self.options@.subrange(0, n as int) =~= self.options@);
        while i < n
            invariant
                n == self.options@.len(),
                i <= n,
                k@ == key@,
                self.values_spec(key@) == values_in(self.options@.subrange(i as int, n as int), key@),
            decreases n - i,
        {
            let ghost rest = self.options@.subrange(i as int, n as int);
            assert(rest.drop_first() =~= self.options@.subrange(i + 1, n as int));
            assert(rest[0] == self.options@[i as int]);
            if self.options[i].name == k {
                return Some(i);
            }
            i = i + 1;
        }
        None
    }

    /// All values given for option `key` (`ArgMatches::values_of`).
    pub fn values_of(&self, key: &str) -> (r: Option<Vec<String>>)
        ensures
            match r {
                Some(vs) => self.values_spec(key@) == Some(strings_view(vs@)),
                None => self.values_spec(key@) is None,
            },
    {
        match self.find(key) {
            Some(i) => Some(clone_strings(&self.options[i].values)),
            None => None,
        }
    }

    /// The first value given for option `key` (`ArgMatches::value_of`).
    pub fn value_of(&self, key: &str) -> (r: Option<String>)
        ensures
            match r {
                Some(v) => self.value_spec(key@) == Some(v@),
                None => self.value_spec(key@) is None,
            },
    {
        match self.find(key) {
            Some(i) => {
                if self.options[i].values.len() > 0 {
                    Some(self.options[i].values[0].clone())
                } else {
                    None
                }
            },
            None => None,
        }
    }
}

proof fn lemma_values_in_push(opts: Seq<MatchedOption>, o: MatchedOption, k: Seq<char>)
    ensures
        values_in(opts.push(o), k) == if values_in(opts, k) is Some {
            values_in(opts, k)
        } else if k == o.name@ {
            Some(strings_view(o.values@))
        } else {
            None
        },
    decreases opts.len(),
{
    if opts.len() > 0 {
        assert(opts.push(o).drop_first() =~= opts.drop_first().push(o));
        assert(opts.push(o)[0] == opts[0]);
        lemma_values_in_push(opts.drop_first(), o, k);
    } else {
        assert(opts.push(o).drop_first() =~= Seq::<MatchedOption>::empty());
        assert(opts.push(o)[0] == o);
        assert(values_in(Seq::<MatchedOption>::empty(), k) is None);
    }
}

/// A copy of `v`.
pub fn clone_strings(v: &Vec<String>) -> (r: Vec<String>)
    ensures
        strings_view(r@) == strings_view(v@),
{
    let mut r: Vec<String> = Vec::new();
    let n = v.len();
    let mut i: usize = 0;
    while i < n
        invariant
            n == v@.len(),
            i <= n,
            r@.len() == i,
            forall|j: int| 0 <= j < i ==> #[trigger] r@[j]@ == v@[j]@,
        decreases n - i,
    {
        r.push(v[i].clone());
        i = i + 1;
    }
    assert(strings_view(r@) =~= strings_view(v@));
    r
}

} // verus!
