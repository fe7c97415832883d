//! What the command line means: the kinds of input, and how a contract is
//! named.
use vstd::prelude::*;
use vstd::string::*;

use crate::block::string_views;
use crate::config::Config;
use crate::error::{error_of, CompileError, ErrorKind, ErrorView};

verus! {

/// The versions of the target compiler that the output may be written for.
#[derive(Clone, Copy, Debug, PartialEq, Eq, Structural)]
pub enum Version {
    V0_8_25,
    V0_8_24,
}

/// The two forms in which a module can be given.
#[derive(Clone, Copy, Debug, PartialEq, Eq, Structural)]
pub enum LLVMIRType {
    Bitcode,
    TextIR,
}

impl LLVMIRType {
    /// Whether the module is given as bitcode.
    pub fn is_bitcode(&self) -> (r: bool)
        ensures
            r == (*self == LLVMIRType::Bitcode),
    {
        match self {
            LLVMIRType::Bitcode => true,
            LLVMIRType::TextIR => false,
        }
    }
}

/// How many of the first `to` characters of `s` are `=`.
pub open spec fn count_eq(s: Seq<char>, to: int) -> nat
    decreases to,
{
    if to <= 0 {
        0
    } else {
        count_eq(s, to - 1) + (if s[to - 1] == '=' {
            1nat
        } else {
            0nat
        })
    }
}

/// Whether `k` is the place of the first `=` in `s`.
pub open spec fn first_eq(s: Seq<char>, k: int) -> bool {
    0 <= k < s.len() && s[k] == '=' && count_eq(s, k) == 0
}

/// The output's name and the entry symbol that the contract `name` stands
/// for: `name` twice where it holds no `=`, what is before and what is
/// behind the `=` where it holds one, and an error where it holds more.
pub open spec fn split(name: Seq<char>) -> Result<(Seq<char>, Seq<char>), ErrorView> {
    if count_eq(name, name.len() as int) == 0 {
        Ok((name, name))
    } else if count_eq(name, name.len() as int) == 1 {
        let k = choose|k: int| first_eq(name, k);
        Ok((name.subrange(0, k), name.subrange(k + 1, name.len() as int)))
    } else {
        Err(error_of(ErrorKind::MalformedContract, name))
    }
}

proof fn lemma_count_monotone(s: Seq<char>, a: int, b: int)
    requires
        a <= b,
    ensures
        count_eq(s, a) <= count_eq(s, b),
    decreases b - a,
{
    if a < b {
        lemma_count_monotone(s, a, b - 1);
    }
}

proof fn lemma_first_eq_unique(s: Seq<char>, k: int, j: int)
    requires
        first_eq(s, k),
        first_eq(s, j),
    ensures
        k == j,
{
    if k < j {
        lemma_count_monotone(s, k + 1, j);
        assert(count_eq(s, k + 1) == count_eq(s, k) + 1);
    } else if j < k {
        lemma_count_monotone(s, j + 1, k);
        assert(count_eq(s, j + 1) == count_eq(s, j) + 1);
    }
}

/// The output's name and the entry symbol that the contract `name` stands for.
pub fn split_entry(name: &str) -> (r: Result<(&str, &str), CompileError>)
    ensures
        match split(name@) {
            Ok((a, b)) => r matches Ok(p) && p.0@ == a && p.1@ == b,
            Err(e) => r matches Err(x) && x@ == e,
        },
{
    let n = name.unicode_len();
    let mut count: u8 = 0;
    let mut first: usize = 0;
    let mut idx: usize = 0;
    for c in it: name.chars()
        invariant
            it.seq() == name@,
            n == name@.len(),
            idx == it.index(),
            count <= 2,
            count < 2 ==> count == count_eq(name@, idx as int),
            count == 2 ==> count_eq(name@, idx as int) >= 2,
            count >= 1 ==> first_eq(name@, first as int),
    {
        if c == '=' {
            if count == 0 {
                first = idx;
            }
            if count < 2 {
                count += 1;
            }
        }
        idx += 1;
    }
    if count == 0 {
        Ok((name, name))
    } else if count == 1 {
        proof {
            let k = choose|k: int| first_eq(name@, k);
            lemma_first_eq_unique(name@, k, first as int);
        }
        Ok((name.substring_char(0, first), name.substring_char(first + 1, n)))
    } else {
        Err(CompileError::new(ErrorKind::MalformedContract, name))
    }
}

/// What the command line asks for.
#[derive(Debug)]
pub struct Args {
    pub solidity_path: String,
    pub solidity_version: Option<Version>,
    /// Names of struct types that count as one scalar slot, beside those
    /// that every configuration starts with.
    pub basic_type_symbols: Vec<String>,
    /// The contracts to write, each as `name` or as `name=entry`.
    pub output_contracts: Vec<String>,
    pub output_dir: String,
    pub llvm_ir_type: LLVMIRType,
    pub input: String,
}

/// One contract to write: the name of its file, and its entry symbol.
#[derive(Debug)]
pub struct Contract {
    pub file: String,
    pub entry: String,
}

/// What a contract to write holds.
pub struct ContractView {
    pub file: Seq<char>,
    pub entry: Seq<char>,
}

impl View for Contract {
    type V = ContractView;

    open spec fn view(&self) -> ContractView {
        ContractView { file: self.file@, entry: self.entry@ }
    }
}

/// What a list of contracts holds.
pub open spec fn contract_views(s: Seq<Contract>) -> Seq<ContractView> {
    Seq::new(s.len(), |i: int| s[i]@)
}

/// The contract that `name` asks for: its file is named by what `name`
/// gives as the output's name, with `.yul` behind.
pub open spec fn contract_of(name: Seq<char>) -> Result<ContractView, ErrorView> {
    match split(name) {
        Ok((file, entry)) => Ok(ContractView { file: file + ".yul"@, entry }),
        Err(e) => Err(e),
    }
}

/// The contracts that `names` ask for from position `from` on, in order.
pub open spec fn contracts_of(names: Seq<Seq<char>>, from: nat) -> Result<
    Seq<ContractView>,
    ErrorView,
>
    decreases names.len() - from,
{
    if from >= names.len() {
        Ok(Seq::empty())
    } else {
        match contract_of(names[from as int]) {
            Err(e) => Err(e),
            Ok(c) => match contracts_of(names, from + 1) {
                Err(e) => Err(e),
                Ok(rest) => Ok(seq![c] + rest),
            },
        }
    }
}

impl Args {
    /// The configuration that the command line asks for: the basic types
    /// that every configuration starts with, and those given.
    pub fn config(&self) -> (r: Config)
        ensures
            r.wf(),
            forall|n: Seq<char>|
                r.is_basic(n) <==> (Config::is_default_basic(n) || crate::text::holds(
                    self.basic_type_symbols@,
                    n,
                )),
    {
        let start = Config::default();
        proof {
            assert forall|n: Seq<char>| start.is_basic(n) <==> Config::is_default_basic(n) by {
                if start.is_basic(n) {
                    let i = choose|i: int|
                        0 <= i < start.basic_types@.len() && #[trigger] start.basic_types@[i]@ == n;
                    assert(crate::config::default_basic_types()[i] == n);
                }
                if Config::is_default_basic(n) {
                    let i = choose|i: int|
                        0 <= i < 6 && #[trigger] crate::config::default_basic_types()[i] == n;
                    assert(start.basic_types@[i]@ == n);
                }
            }
        }
        start.basic_types(self.basic_type_symbols.as_slice())
    }

    /// The contracts to write, in the order in which they were asked for.
    pub fn contracts(&self) -> (r: Result<Vec<Contract>, CompileError>)
        ensures
            match contracts_of(string_views(self.output_contracts@), 0) {
                Ok(s) => r matches Ok(v) && contract_views(v@) == s,
                Err(e) => r matches Err(x) && x@ == e,
            },
    {
        let ghost names = string_views(self.output_contracts@);
        let ghost total = contracts_of(names, 0);
        let n = self.output_contracts.len();
        let mut out: Vec<Contract> = Vec::new();
        let mut i: usize = 0;
        assert(contract_views(out@) =~= Seq::empty());
        while i < n
            invariant
                i <= n,
                n == self.output_contracts.len(),
                names == string_views(self.output_contracts@),
                total == contracts_of(names, 0),
                match contracts_of(names, i as nat) {
                    Ok(rest) => total == Ok::<Seq<ContractView>, ErrorView>(
                        contract_views(out@) + rest,
                    ),
                    Err(e) => total == Err::<Seq<ContractView>, ErrorView>(e),
                },
            decreases n - i,
        {
            let ghost before = contract_views(out@);
            let (name, entry) = match split_entry(self.output_contracts[i].as_str()) {
                Ok(p) => p,
                Err(e) => {
                    return Err(e);
                },
            };
            let mut file = name.to_owned();
            file.append(".yul");
            let c = Contract { file, entry: entry.to_owned() };
            let ghost one = seq![c@];
            out.push(c);
            proof {
                assert(contract_views(out@) =~= before + one);
                match contracts_of(names, (i + 1) as nat) {
                    Ok(rest) => {
                        assert(before + (one + rest) =~= (before + one) + rest);
                    },
                    Err(_) => {},
                }
            }
            i += 1;
        }
        proof {
            assert(contract_views(out@) + Seq::<ContractView>::empty() =~= contract_views(out@));
        }
        Ok(out)
    }
}

} // verus!
