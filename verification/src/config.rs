//! What the lowering is told beside the module.
use vstd::prelude::*;
use vstd::string::*;

use crate::text::{distinct, holds, str_eq};

verus! {

/// The configuration of the lowering.
#[derive(Clone, Debug)]
pub struct Config {
    /// The names of the struct types that count as one scalar slot. No name
    /// is held twice.
    pub basic_types: Vec<String>,
}

/// The names that a configuration starts with.
pub open spec fn default_basic_types() -> Seq<Seq<char>> {
    seq![
        "patine_core::uint::U256"@,
        "patine_core::uint::U128"@,
        "patine_core::uint::U64"@,
        "patine_core::uint::U32"@,
        "patine_core::uint::U16"@,
        "patine_core::uint::U8"@,
    ]
}

impl Config {
    /// Whether `name` is one of the names that a configuration starts with.
    pub open spec fn is_default_basic(name: Seq<char>) -> bool {
        exists|i: int| 0 <= i < 6 && #[trigger] default_basic_types()[i] == name
    }

    /// Whether no basic type is held twice.
    pub open spec fn wf(&self) -> bool {
        distinct(self.basic_types@)
    }

    /// Whether `name` is the name of a basic type.
    pub open spec fn is_basic(&self, name: Seq<char>) -> bool {
        holds(self.basic_types@, name)
    }

    /// Whether `name` is the name of a basic type.
    pub fn contains(&self, name: &str) -> (r: bool)
        ensures
            r == self.is_basic(name@),
    {
        let n = self.basic_types.len();
        let mut i: usize = 0;
        while i < n
            invariant
                i <= n,
                n == self.basic_types.len(),
                forall|j: int| 0 <= j < i ==> self.basic_types@[j]@ != name@,
            decreases n - i,
        {
            if str_eq(self.basic_types[i].as_str(), name) {
                return true;
            }
            i += 1;
        }
        false
    }

    /// Adds `name` to the basic types, unless it is one already.
    pub fn insert(&mut self, name: &str)
        ensures
            old(self).wf() ==> final(self).wf(),
            forall|n: Seq<char>| final(self).is_basic(n) <==> (old(self).is_basic(n) || n == name@),
            old(self).is_basic(name@) ==> final(self).basic_types@ == old(self).basic_types@,
            !old(self).is_basic(name@) ==> final(self).basic_types@.len() == old(
                self,
            ).basic_types@.len() + 1,
    {
        if !self.contains(name) {
            let ghost before = self.basic_types@;
            self.basic_types.push(name.to_owned());
            proof {
                let after = self.basic_types@;
                assert(after[before.len() as int]@ == name@);
                assert forall|n: Seq<char>| holds(after, n) <==> (holds(before, n) || n == name@) by {
                    if holds(before, n) {
                        let i = choose|i: int| 0 <= i < before.len() && before[i]@ == n;
                        assert(after[i]@ == n);
                    }
                    if holds(after, n) && n != name@ {
                        let i = choose|i: int| 0 <= i < after.len() && after[i]@ == n;
                        assert(before[i]@ == n);
                    }
                }
            }
        }
    }

    /// The configuration with the names in `bt` added to its basic types.
    pub fn basic_types(self, bt: &[String]) -> (r: Config)
        ensures
            self.wf() ==> r.wf(),
            forall|n: Seq<char>| r.is_basic(n) <==> (self.is_basic(n) || holds(bt@, n)),
    {
        let mut cfg = self;
        let mut i: usize = 0;
        while i < bt.len()
            invariant
                i <= bt.len(),
                self.wf() ==> cfg.wf(),
                forall|n: Seq<char>|
                    cfg.is_basic(n) <==> (self.is_basic(n) || holds(bt@.take(i as int), n)),
            decreases bt.len() - i,
        {
            let ghost prev = cfg;
            cfg.insert(bt[i].as_str());
            proof {
                assert forall|n: Seq<char>|
                    cfg.is_basic(n) <==> (self.is_basic(n) || holds(
                        bt@.take(i as int + 1),
                        n,
                    )) by {
                    let short = bt@.take(i as int);
                    let long = bt@.take(i as int + 1);
                    if holds(short, n) {
                        let k = choose|k: int| 0 <= k < short.len() && short[k]@ == n;
                        assert(long[k]@ == n);
                    }
                    if n == bt@[i as int]@ {
                        assert(long[i as int]@ == n);
                    }
                    if holds(long, n) {
                        let k = choose|k: int| 0 <= k < long.len() && long[k]@ == n;
                        if k < i {
                            assert(short[k]@ == n);
                        }
                    }
                }
            }
            i += 1;
        }
        assert(bt@.take(bt@.len() as int) =~= bt@);
        cfg
    }
}

impl Default for Config {
    /// The configuration whose basic types are the six unsigned integer
    /// wrappers.
    fn default() -> (r: Config)
        ensures
            r.wf(),
            r.basic_types@.len() == 6,
            forall|i: int| 0 <= i < 6 ==> r.basic_types@[i]@ == default_basic_types()[i],
    {
        let mut v: Vec<String> = Vec::new();
        v.push("patine_core::uint::U256".to_owned());
        v.push("patine_core::uint::U128".to_owned());
        v.push("patine_core::uint::U64".to_owned());
        v.push("patine_core::uint::U32".to_owned());
        v.push("patine_core::uint::U16".to_owned());
        v.push("patine_core::uint::U8".to_owned());
        proof {
            reveal_strlit("patine_core::uint::U256");
            reveal_strlit("patine_core::uint::U128");
            reveal_strlit("patine_core::uint::U64");
            reveal_strlit("patine_core::uint::U32");
            reveal_strlit("patine_core::uint::U16");
            reveal_strlit("patine_core::uint::U8");
            assert("patine_core::uint::U256"@.len() == 23);
            assert("patine_core::uint::U128"@.len() == 23);
            assert("patine_core::uint::U64"@.len() == 22);
            assert("patine_core::uint::U32"@.len() == 22);
            assert("patine_core::uint::U16"@.len() == 22);
            assert("patine_core::uint::U8"@.len() == 21);
            assert("patine_core::uint::U256"@[20] == '2');
            assert("patine_core::uint::U128"@[20] == '1');
            assert("patine_core::uint::U64"@[20] == '6');
            assert("patine_core::uint::U32"@[20] == '3');
            assert("patine_core::uint::U16"@[20] == '1');
        }
        Config { basic_types: v }
    }
}

} // verus!
