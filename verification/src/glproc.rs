//! Finding GL functions among the symbols that the process has loaded.
//!
//! The GL dispatch library exports no callable `glFoo`, only variables named
//! `epoxy_glFoo` that hold the function's address. So a function is looked for
//! behind such a variable first, and under its plain name after that.

use crate::text;
use vstd::prelude::*;

verus! {

/// How a symbol leads to a function.
#[derive(Clone, Copy, Debug, PartialEq, Eq, Structural)]
pub enum SymbolKind {
    /// It is a variable that holds the function's address.
    Variable,
    /// It is the function.
    Function,
}

/// A symbol to look for.
#[derive(Debug)]
pub struct Candidate {
    pub symbol: String,
    pub kind: SymbolKind,
}

/// Whether a name can be that of a symbol: it holds no NUL.
pub open spec fn is_symbol_name(name: Seq<char>) -> bool {
    forall|i: int| 0 <= i < name.len() ==> #[trigger] name[i] != '\0'
}

/// The symbols to look for, in order, when the GL function `name` is wanted.
pub open spec fn is_candidates(name: Seq<char>, candidates: Seq<Candidate>) -> bool {
    if is_symbol_name(name) {
        &&& candidates.len() == 2
        &&& candidates[0].symbol@ == "epoxy_"@ + name
        &&& candidates[0].kind == SymbolKind::Variable
        &&& candidates[1].symbol@ == name
        &&& candidates[1].kind == SymbolKind::Function
    } else {
        candidates.len() == 0
    }
}

/// The address of a GL function, given what its two symbols led to where they
/// exist: what the variable holds, unless that is null; without it the function
/// of the plain name; and without that the null address.
pub open spec fn proc_address(variable: Option<u64>, function: Option<u64>) -> u64 {
    if variable is Some && variable->0 != 0 {
        variable->0
    } else if function is Some {
        function->0
    } else {
        0
    }
}

/// The symbols to look for, in order, when the GL function `name` is wanted.
pub fn candidates(name: &str) -> (symbols: Vec<Candidate>)
    ensures
        is_candidates(name@, symbols@),
{
    let chars: Vec<char> = text::characters(name);
    let mut symbols: Vec<Candidate> = Vec::new();
    let mut i: usize = 0;
    while i < chars.len()
        invariant
            i <= chars@.len(),
            chars@ == name@,
            symbols@.len() == 0,
            forall|j: int| 0 <= j < i ==> #[trigger] chars@[j] != '\0',
        decreases chars@.len() - i,
    {
        if chars[i] == '\0' {
            assert(name@[i as int] == '\0');
            return symbols;
        }
        i = i + 1;
    }
    let mut variable: String = "epoxy_".to_owned();
    variable.append(name);
    symbols.push(Candidate { symbol: variable, kind: SymbolKind::Variable });
    symbols.push(Candidate { symbol: name.to_owned(), kind: SymbolKind::Function });
    symbols
}

/// The address of a GL function. `variable` is what the variable of the function
/// holds, `function` is the address of the function of the plain name; each is
/// `None` where there is no such symbol.
pub fn resolve_gl_proc(variable: Option<u64>, function: Option<u64>) -> (address: u64)
    ensures
        address == proc_address(variable, function),
{
    if let Some(address) = variable {
        if address != 0 {
            return address;
        }
    }
    match function {
        Some(address) => address,
        None => 0,
    }
}

/// Every name that can be one of a symbol has two symbols, the variable first:
/// the variable's is the name behind `epoxy_`, and the function's is the name.
pub proof fn law_variable_comes_before_the_function(name: Seq<char>, found: Seq<Candidate>)
    requires
        is_candidates(name, found),
        forall|i: int| 0 <= i < name.len() ==> #[trigger] name[i] != '\0',
    ensures
        found.len() == 2,
        found[0].kind == SymbolKind::Variable,
        found[0].symbol@.len() == 6 + name.len(),
        found[0].symbol@.take(6) == "epoxy_"@,
        found[0].symbol@.skip(6) == name,
        found[1].kind == SymbolKind::Function,
        found[1].symbol@ == name,
{
    reveal_strlit("epoxy_");
    assert(found[0].symbol@.take(6) =~= "epoxy_"@);
    assert(found[0].symbol@.skip(6) =~= name);
}

/// A name with a NUL in it has no symbol.
pub proof fn law_no_symbol_holds_a_nul(name: Seq<char>, found: Seq<Candidate>, i: int)
    requires
        is_candidates(name, found),
        0 <= i < name.len(),
        name[i] == '\0',
    ensures
        found.len() == 0,
{
}

/// What the variable holds wins wherever it holds something; where it does not,
/// or is not there, the function does; and where neither is there the address is
/// null.
pub proof fn law_variable_wins(held: u64, function: Option<u64>, address: u64)
    ensures
        held != 0 ==> proc_address(Some(held), function) == held,
        proc_address(Some(0), function) == proc_address(None, function),
        proc_address(None, Some(address)) == address,
        proc_address(None, None) == 0,
{
}

} // verus!
