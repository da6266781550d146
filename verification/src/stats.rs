//! How counters are named: scopes joined by a separator.

use vstd::prelude::*;
use vstd::string::StringExecFns;

verus! {

/// The separator between a scope and what is named within it.
pub const SEP: char = ':';

/// The name of `name` within `scope`: the two joined by the separator.
pub open spec fn scoped(scope: Seq<char>, name: Seq<char>) -> Seq<char> {
    scope + seq![SEP] + name
}

/// Names `name` within `scope`.
pub fn scoped_name(scope: &str, name: &str) -> (r: String)
    ensures
        r@ == scoped(scope@, name@),
{
    let mut full = String::from_str(scope);
    full.push(SEP);
    full.append(name);
    full
}

/// Scoping is associative: a name within a scope within a scope is the inner
/// scope and name within the outer scope.
pub proof fn lemma_scopes_nest(outer: Seq<char>, inner: Seq<char>, name: Seq<char>)
    ensures
        scoped(scoped(outer, inner), name) == scoped(outer, scoped(inner, name)),
{
    assert(scoped(scoped(outer, inner), name) =~= scoped(outer, scoped(inner, name)));
}

} // verus!
