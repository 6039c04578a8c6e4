//! The table of named symbols.
use vstd::prelude::*;
use crate::ast::{MathSymbol, SymbolCategory, SymbolV};
use crate::text::str_eq;

verus! {

/// The symbol a name stands for: Greek letters, large operators and
/// relations. The entry for `int` is named `integral`.
pub open spec fn symbol_entry(name: Seq<char>) -> Option<SymbolV> {
    if name == "alpha"@ {
        Some(SymbolV { unicode: '\u{3b1}', name: "alpha"@, category: SymbolCategory::Letter })
    } else if name == "beta"@ {
        Some(SymbolV { unicode: '\u{3b2}', name: "beta"@, category: SymbolCategory::Letter })
    } else if name == "sum"@ {
        Some(SymbolV { unicode: '\u{2211}', name: "sum"@, category: SymbolCategory::Operator })
    } else if name == "int"@ {
        Some(
            SymbolV { unicode: '\u{222b}', name: "integral"@, category: SymbolCategory::Operator },
        )
    } else if name == "leq"@ {
        Some(
            SymbolV {
                unicode: '\u{2264}',
                name: "less-than-or-equal"@,
                category: SymbolCategory::Relation,
            },
        )
    } else {
        None
    }
}

pub open spec fn symbol_result(r: Option<MathSymbol>) -> Option<SymbolV> {
    match r {
        Some(s) => Some(s@),
        None => None,
    }
}

fn symbol(unicode: char, name: &str, category: SymbolCategory) -> (r: MathSymbol)
    ensures
        r@ == (SymbolV { unicode, name: name@, category }),
{
    MathSymbol { unicode, name: String::from_str(name), category }
}

/// The symbol named `name`, if the table has one.
pub fn get_symbol(name: &str) -> (r: Option<MathSymbol>)
    ensures
        symbol_result(r) == symbol_entry(name@),
{
    if str_eq(name, "alpha") {
        Some(symbol('\u{3b1}', "alpha", SymbolCategory::Letter))
    } else if str_eq(name, "beta") {
        Some(symbol('\u{3b2}', "beta", SymbolCategory::Letter))
    } else if str_eq(name, "sum") {
        Some(symbol('\u{2211}', "sum", SymbolCategory::Operator))
    } else if str_eq(name, "int") {
        Some(symbol('\u{222b}', "integral", SymbolCategory::Operator))
    } else if str_eq(name, "leq") {
        Some(symbol('\u{2264}', "less-than-or-equal", SymbolCategory::Relation))
    } else {
        None
    }
}

/// The character of the symbol that the command `cmd` names: exactly the
/// `unicode` of `get_symbol(cmd)`.
pub fn resolve_latex_command(cmd: &str) -> (r: Option<char>)
    ensures
        r == (match symbol_entry(cmd@) {
            Some(s) => Some(s.unicode),
            None => None::<char>,
        }),
{
    match get_symbol(cmd) {
        Some(s) => Some(s.unicode),
        None => None,
    }
}

/// The table holds exactly five names, each with its fixed character, name
/// and category: `alpha` (α) and `beta` (β) are letters, `sum` (∑) and `int`
/// (∫, named `integral`) are large operators, `leq` (≤, named
/// `less-than-or-equal`) is a relation. Every other name has no symbol.
pub proof fn law_symbol_table(name: Seq<char>)
    ensures
        symbol_entry("alpha"@) == Some(
            SymbolV { unicode: '\u{3b1}', name: "alpha"@, category: SymbolCategory::Letter },
        ),
        symbol_entry("beta"@) == Some(
            SymbolV { unicode: '\u{3b2}', name: "beta"@, category: SymbolCategory::Letter },
        ),
        symbol_entry("sum"@) == Some(
            SymbolV { unicode: '\u{2211}', name: "sum"@, category: SymbolCategory::Operator },
        ),
        symbol_entry("int"@) == Some(
            SymbolV {
                unicode: '\u{222b}',
                name: "integral"@,
                category: SymbolCategory::Operator,
            },
        ),
        symbol_entry("leq"@) == Some(
            SymbolV {
                unicode: '\u{2264}',
                name: "less-than-or-equal"@,
                category: SymbolCategory::Relation,
            },
        ),
        name != "alpha"@ && name != "beta"@ && name != "sum"@ && name != "int"@ && name
            != "leq"@ ==> symbol_entry(name) is None,
{
    reveal_strlit("alpha");
    reveal_strlit("beta");
    reveal_strlit("sum");
    reveal_strlit("int");
    reveal_strlit("leq");
    assert("beta"@.len() != "alpha"@.len());
    assert("sum"@.len() != "alpha"@.len() && "sum"@.len() != "beta"@.len());
    assert("int"@.len() != "alpha"@.len() && "int"@.len() != "beta"@.len());
    assert("int"@[0] != "sum"@[0]);
    assert("leq"@.len() != "alpha"@.len() && "leq"@.len() != "beta"@.len());
    assert("leq"@[0] != "sum"@[0] && "leq"@[0] != "int"@[0]);
}

} // verus!
