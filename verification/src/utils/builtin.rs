use vstd::prelude::*;
use vstd::string::*;

use crate::text::str_eq;

verus! {

/// The table of the target machine's primitives: for the bare name of each,
/// the number of arguments that it takes.
pub open spec fn primitive_arity(s: Seq<char>) -> Option<usize> {
    if s == "stop"@ {
        Some(0usize)
    } else if s == "add"@ {
        Some(2usize)
    } else if s == "sub"@ {
        Some(2usize)
    } else if s == "mul"@ {
        Some(2usize)
    } else if s == "div"@ {
        Some(2usize)
    } else if s == "sdiv"@ {
        Some(2usize)
    } else if s == "mod"@ {
        Some(2usize)
    } else if s == "smod"@ {
        Some(2usize)
    } else if s == "exp"@ {
        Some(2usize)
    } else if s == "not"@ {
        Some(1usize)
    } else if s == "lt"@ {
        Some(2usize)
    } else if s == "gt"@ {
        Some(2usize)
    } else if s == "slt"@ {
        Some(2usize)
    } else if s == "sgt"@ {
        Some(2usize)
    } else if s == "eq"@ {
        Some(2usize)
    } else if s == "iszero"@ {
        Some(1usize)
    } else if s == "and"@ {
        Some(2usize)
    } else if s == "or"@ {
        Some(2usize)
    } else if s == "xor"@ {
        Some(2usize)
    } else if s == "byte"@ {
        Some(2usize)
    } else if s == "shl"@ {
        Some(2usize)
    } else if s == "shr"@ {
        Some(2usize)
    } else if s == "sar"@ {
        Some(2usize)
    } else if s == "addmod"@ {
        Some(3usize)
    } else if s == "mulmod"@ {
        Some(3usize)
    } else if s == "signextend"@ {
        Some(2usize)
    } else if s == "keccak256"@ {
        Some(2usize)
    } else if s == "pc"@ {
        Some(0usize)
    } else if s == "pop"@ {
        Some(2usize)
    } else if s == "mload"@ {
        Some(1usize)
    } else if s == "mstore"@ {
        Some(2usize)
    } else if s == "mstore8"@ {
        Some(2usize)
    } else if s == "sload"@ {
        Some(1usize)
    } else if s == "sstore"@ {
        Some(2usize)
    } else if s == "tload"@ {
        Some(1usize)
    } else if s == "tstore"@ {
        Some(2usize)
    } else if s == "msize"@ {
        Some(0usize)
    } else if s == "gas"@ {
        Some(0usize)
    } else if s == "address"@ {
        Some(0usize)
    } else if s == "balance"@ {
        Some(1usize)
    } else if s == "selfbalance"@ {
        Some(0usize)
    } else if s == "caller"@ {
        Some(0usize)
    } else if s == "callvalue"@ {
        Some(0usize)
    } else if s == "calldataload"@ {
        Some(1usize)
    } else if s == "calldatasize"@ {
        Some(0usize)
    } else if s == "calldatacopy"@ {
        Some(3usize)
    } else if s == "codesize"@ {
        Some(0usize)
    } else if s == "codecopy"@ {
        Some(3usize)
    } else if s == "extcodesize"@ {
        Some(1usize)
    } else if s == "extcodecopy"@ {
        Some(4usize)
    } else if s == "returndatasize"@ {
        Some(0usize)
    } else if s == "returndatacopy"@ {
        Some(3usize)
    } else if s == "mcopy"@ {
        Some(3usize)
    } else if s == "extcodehash"@ {
        Some(1usize)
    } else if s == "create"@ {
        Some(3usize)
    } else if s == "create2"@ {
        Some(4usize)
    } else if s == "call"@ {
        Some(7usize)
    } else if s == "callcode"@ {
        Some(7usize)
    } else if s == "delegatecall"@ {
        Some(6usize)
    } else if s == "staticcall"@ {
        Some(6usize)
    } else if s == "return"@ {
        Some(2usize)
    } else if s == "revert"@ {
        Some(2usize)
    } else if s == "selfdestruct"@ {
        Some(1usize)
    } else if s == "invalid"@ {
        Some(0usize)
    } else if s == "log0"@ {
        Some(2usize)
    } else if s == "log1"@ {
        Some(3usize)
    } else if s == "log2"@ {
        Some(4usize)
    } else if s == "log3"@ {
        Some(5usize)
    } else if s == "log4"@ {
        Some(6usize)
    } else if s == "chainid"@ {
        Some(0usize)
    } else if s == "basefee"@ {
        Some(0usize)
    } else if s == "blobbasefee"@ {
        Some(0usize)
    } else if s == "origin"@ {
        Some(0usize)
    } else if s == "gasprice"@ {
        Some(0usize)
    } else if s == "blockhash"@ {
        Some(1usize)
    } else if s == "blobhash"@ {
        Some(1usize)
    } else if s == "coinbase"@ {
        Some(0usize)
    } else if s == "timestamp"@ {
        Some(0usize)
    } else if s == "number"@ {
        Some(0usize)
    } else if s == "difficulty"@ {
        Some(0usize)
    } else if s == "prevrandao"@ {
        Some(0usize)
    } else if s == "gaslimit"@ {
        Some(0usize)
    } else {
        None
    }
}

/// The prefix that marks a function of the module as a built-in.
pub open spec fn builtin_prefix() -> Seq<char> {
    "__yul_"@
}

/// The number of arguments of the built-in `name`, or `None` where `name` is
/// no built-in: a built-in's name is the prefix and then the bare name of a
/// primitive.
pub open spec fn builtin_arity(name: Seq<char>) -> Option<usize> {
    if name.len() >= 6 && name.subrange(0, 6) == builtin_prefix() {
        primitive_arity(name.subrange(6, name.len() as int))
    } else {
        None
    }
}

/// Whether `name` is the name of a built-in.
pub open spec fn is_builtin_name(name: Seq<char>) -> bool {
    builtin_arity(name) is Some
}

fn primitive_args_num(s: &str) -> (r: Option<usize>)
    ensures
        r == primitive_arity(s@),
{
    if str_eq(s, "stop") {
        return Some(0);
    }
    if str_eq(s, "add") {
        return Some(2);
    }
    if str_eq(s, "sub") {
        return Some(2);
    }
    if str_eq(s, "mul") {
        return Some(2);
    }
    if str_eq(s, "div") {
        return Some(2);
    }
    if str_eq(s, "sdiv") {
        return Some(2);
    }
    if str_eq(s, "mod") {
        return Some(2);
    }
    if str_eq(s, "smod") {
        return Some(2);
    }
    if str_eq(s, "exp") {
        return Some(2);
    }
    if str_eq(s, "not") {
        return Some(1);
    }
    if str_eq(s, "lt") {
        return Some(2);
    }
    if str_eq(s, "gt") {
        return Some(2);
    }
    if str_eq(s, "slt") {
        return Some(2);
    }
    if str_eq(s, "sgt") {
        return Some(2);
    }
    if str_eq(s, "eq") {
        return Some(2);
    }
    if str_eq(s, "iszero") {
        return Some(1);
    }
    if str_eq(s, "and") {
        return Some(2);
    }
    if str_eq(s, "or") {
        return Some(2);
    }
    if str_eq(s, "xor") {
        return Some(2);
    }
    if str_eq(s, "byte") {
        return Some(2);
    }
    if str_eq(s, "shl") {
        return Some(2);
    }
    if str_eq(s, "shr") {
        return Some(2);
    }
    if str_eq(s, "sar") {
        return Some(2);
    }
    if str_eq(s, "addmod") {
        return Some(3);
    }
    if str_eq(s, "mulmod") {
        return Some(3);
    }
    if str_eq(s, "signextend") {
        return Some(2);
    }
    if str_eq(s, "keccak256") {
        return Some(2);
    }
    if str_eq(s, "pc") {
        return Some(0);
    }
    if str_eq(s, "pop") {
        return Some(2);
    }
    if str_eq(s, "mload") {
        return Some(1);
    }
    if str_eq(s, "mstore") {
        return Some(2);
    }
    if str_eq(s, "mstore8") {
        return Some(2);
    }
    if str_eq(s, "sload") {
        return Some(1);
    }
    if str_eq(s, "sstore") {
        return Some(2);
    }
    if str_eq(s, "tload") {
        return Some(1);
    }
    if str_eq(s, "tstore") {
        return Some(2);
    }
    if str_eq(s, "msize") {
        return Some(0);
    }
    if str_eq(s, "gas") {
        return Some(0);
    }
    if str_eq(s, "address") {
        return Some(0);
    }
    if str_eq(s, "balance") {
        return Some(1);
    }
    if str_eq(s, "selfbalance") {
        return Some(0);
    }
    if str_eq(s, "caller") {
        return Some(0);
    }
    if str_eq(s, "callvalue") {
        return Some(0);
    }
    if str_eq(s, "calldataload") {
        return Some(1);
    }
    if str_eq(s, "calldatasize") {
        return Some(0);
    }
    if str_eq(s, "calldatacopy") {
        return Some(3);
    }
    if str_eq(s, "codesize") {
        return Some(0);
    }
    if str_eq(s, "codecopy") {
        return Some(3);
    }
    if str_eq(s, "extcodesize") {
        return Some(1);
    }
    if str_eq(s, "extcodecopy") {
        return Some(4);
    }
    if str_eq(s, "returndatasize") {
        return Some(0);
    }
    if str_eq(s, "returndatacopy") {
        return Some(3);
    }
    if str_eq(s, "mcopy") {
        return Some(3);
    }
    if str_eq(s, "extcodehash") {
        return Some(1);
    }
    if str_eq(s, "create") {
        return Some(3);
    }
    if str_eq(s, "create2") {
        return Some(4);
    }
    if str_eq(s, "call") {
        return Some(7);
    }
    if str_eq(s, "callcode") {
        return Some(7);
    }
    if str_eq(s, "delegatecall") {
        return Some(6);
    }
    if str_eq(s, "staticcall") {
        return Some(6);
    }
    if str_eq(s, "return") {
        return Some(2);
    }
    if str_eq(s, "revert") {
        return Some(2);
    }
    if str_eq(s, "selfdestruct") {
        return Some(1);
    }
    if str_eq(s, "invalid") {
        return Some(0);
    }
    if str_eq(s, "log0") {
        return Some(2);
    }
    if str_eq(s, "log1") {
        return Some(3);
    }
    if str_eq(s, "log2") {
        return Some(4);
    }
    if str_eq(s, "log3") {
        return Some(5);
    }
    if str_eq(s, "log4") {
        return Some(6);
    }
    if str_eq(s, "chainid") {
        return Some(0);
    }
    if str_eq(s, "basefee") {
        return Some(0);
    }
    if str_eq(s, "blobbasefee") {
        return Some(0);
    }
    if str_eq(s, "origin") {
        return Some(0);
    }
    if str_eq(s, "gasprice") {
        return Some(0);
    }
    if str_eq(s, "blockhash") {
        return Some(1);
    }
    if str_eq(s, "blobhash") {
        return Some(1);
    }
    if str_eq(s, "coinbase") {
        return Some(0);
    }
    if str_eq(s, "timestamp") {
        return Some(0);
    }
    if str_eq(s, "number") {
        return Some(0);
    }
    if str_eq(s, "difficulty") {
        return Some(0);
    }
    if str_eq(s, "prevrandao") {
        return Some(0);
    }
    if str_eq(s, "gaslimit") {
        return Some(0);
    }
    None
}

/// The number of arguments that the built-in `name` takes, or `None` where
/// `name` is no built-in.
pub fn builtin_args_num(name: &str) -> (r: Option<usize>)
    ensures
        r == builtin_arity(name@),
{
    let n = name.unicode_len();
    if n < 6 {
        return None;
    }
    let prefix = name.substring_char(0, 6);
    if !str_eq(prefix, "__yul_") {
        return None;
    }
    primitive_args_num(name.substring_char(6, n))
}

/// Whether `name` is the name of a built-in.
pub fn is_builtin(name: &str) -> (r: bool)
    ensures
        r == is_builtin_name(name@),
{
    builtin_args_num(name).is_some()
}

/// The bare name of the primitive behind the built-in `name`.
pub(crate) fn strip_builtin_prefix(name: &str) -> (r: String)
    requires
        is_builtin_name(name@),
    ensures
        r@ == name@.subrange(6, name@.len() as int),
{
    let n = name.unicode_len();
    name.substring_char(6, n).to_owned()
}

} // verus!
