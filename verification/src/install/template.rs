//! Placeholder substitution for generated service, proxy and renewal files.
//! Every written file must come out free of the placeholder prefix: a
//! leftover token is a correctness bug, so substitution is always followed by
//! a check that refuses the text otherwise.

use vstd::prelude::*;

use crate::errors::Error;
use crate::text::{chars_of, contains_exec, contains_seq, replace_all, replace_all_spec, string_of};

verus! {

/// The prefix every placeholder token starts with.
pub open spec fn token_prefix() -> Seq<char> {
    "VAR_"@
}

/// One placeholder and the value that replaces it.
pub struct TokenBinding {
    pub name: String,
    pub value: String,
}

/// The characters of a binding list: each name with its value.
pub open spec fn binding_views(vars: Seq<TokenBinding>) -> Seq<(Seq<char>, Seq<char>)> {
    Seq::new(vars.len(), |i: int| (vars[i].name@, vars[i].value@))
}

/// The text after substituting each pair in turn, earlier pairs first, each
/// replacing all occurrences of its name by its value.
pub open spec fn subst_pairs(text: Seq<char>, vars: Seq<(Seq<char>, Seq<char>)>) -> Seq<char>
    decreases vars.len(),
{
    if vars.len() == 0 {
        text
    } else {
        subst_pairs(replace_all_spec(text, vars[0].0, vars[0].1), vars.drop_first())
    }
}

/// Replaces every occurrence of every binding's name by its value, in order.
pub fn substitute(text: &str, vars: &Vec<TokenBinding>) -> (r: String)
    requires
        forall|i: int| 0 <= i < vars@.len() ==> (#[trigger] vars@[i]).name@.len() > 0,
    ensures
        r@ == subst_pairs(text@, binding_views(vars@)),
{
    let mut cur: Vec<char> = chars_of(text);
    let mut i: usize = 0;
    proof {
        assert(binding_views(vars@).skip(0) =~= binding_views(vars@));
    }
    while i < vars.len()
        invariant
            i <= vars@.len(),
            forall|k: int| 0 <= k < vars@.len() ==> (#[trigger] vars@[k]).name@.len() > 0,
            subst_pairs(text@, binding_views(vars@)) == subst_pairs(
                cur@,
                binding_views(vars@).skip(i as int),
            ),
        decreases vars@.len() - i,
    {
        let ghost before = binding_views(vars@).skip(i as int);
        let name = chars_of(vars[i].name.as_str());
        let value = chars_of(vars[i].value.as_str());
        cur = replace_all(&cur, &name, &value);
        i = i + 1;
        proof {
            assert(before[0] == (vars@[i - 1].name@, vars@[i - 1].value@));
            assert(before.drop_first() =~= binding_views(vars@).skip(i as int));
        }
    }
    proof {
        assert(binding_views(vars@).skip(vars@.len() as int) =~= Seq::<(
            Seq<char>,
            Seq<char>,
        )>::empty());
    }
    string_of(&cur)
}

/// Whether the placeholder prefix still occurs in the text.
pub fn contains_token(text: &str) -> (r: bool)
    ensures
        r == contains_seq(text@, token_prefix()),
{
    let cs = chars_of(text);
    let pre = chars_of("VAR_");
    contains_exec(&cs, &pre)
}

/// Substitutes all bindings and then insists that no placeholder survived:
/// the result is owed exactly when the substituted text is token-free.
pub fn substitute_checked(text: &str, vars: &Vec<TokenBinding>) -> (r: Result<String, Error>)
    requires
        forall|i: int| 0 <= i < vars@.len() ==> (#[trigger] vars@[i]).name@.len() > 0,
    ensures
        match r {
            Result::Ok(s) => {
                &&& s@ == subst_pairs(text@, binding_views(vars@))
                &&& !contains_seq(s@, token_prefix())
            },
            Result::Err(e) => {
                &&& contains_seq(subst_pairs(text@, binding_views(vars@)), token_prefix())
                &&& e is UnresolvedToken
            },
        },
{
    let s = substitute(text, vars);
    if contains_token(s.as_str()) {
        Err(Error::UnresolvedToken)
    } else {
        Ok(s)
    }
}

} // verus!
