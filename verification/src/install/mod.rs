//! The install orchestration: steps, persisted state, input records, and the
//! checks and assembly that the steps run.

pub mod input_shadowsocks;
pub mod input_xray;
pub mod shadowsocks;
pub mod state;
pub mod template;
pub mod validate;
pub mod xray;
pub mod xray_config;
pub mod steps;

use vstd::prelude::*;

use crate::errors::Error;

verus! {

/// The outcome of looking for one required executable on the system.
pub struct RequirementCheck {
    pub name: String,
    pub present: bool,
}

/// The names of the requirements not present, in the order checked.
pub open spec fn missing_of(rs: Seq<RequirementCheck>) -> Seq<Seq<char>>
    decreases rs.len(),
{
    if rs.len() == 0 {
        Seq::empty()
    } else {
        missing_of(rs.drop_last()) + (if rs.last().present {
            Seq::empty()
        } else {
            seq![rs.last().name@]
        })
    }
}

/// Accepts exactly when every required executable is present; otherwise the
/// error carries the missing names, in the order checked.
pub fn check_requirements(results: &Vec<RequirementCheck>) -> (r: Result<(), Error>)
    ensures
        match r {
            Result::Ok(()) => forall|i: int|
                0 <= i < results@.len() ==> (#[trigger] results@[i]).present,
            Result::Err(e) => {
                &&& e matches Error::MissingPrerequisites(m)
                    && crate::jsontext::views_of_strings(m@) == missing_of(results@)
                    && m@.len() > 0
                &&& exists|i: int| 0 <= i < results@.len() && !(#[trigger] results@[i]).present
            },
        },
{
    let mut missing: Vec<String> = Vec::new();
    let mut i: usize = 0;
    proof {
        assert(results@.subrange(0, 0) =~= Seq::<RequirementCheck>::empty());
        assert(crate::jsontext::views_of_strings(missing@) =~= missing_of(
            results@.subrange(0, 0),
        ));
    }
    while i < results.len()
        invariant
            i <= results@.len(),
            crate::jsontext::views_of_strings(missing@) == missing_of(
                results@.subrange(0, i as int),
            ),
            missing@.len() == 0 <==> (forall|k: int|
                0 <= k < i ==> (#[trigger] results@[k]).present),
        decreases results@.len() - i,
    {
        let ghost pre = results@.subrange(0, i as int);
        if !results[i].present {
            missing.push(results[i].name.clone());
        }
        i = i + 1;
        proof {
            let cur = results@.subrange(0, i as int);
            assert(cur.drop_last() =~= pre);
            assert(cur.last() == results@[i - 1]);
            assert(crate::jsontext::views_of_strings(missing@) =~= missing_of(cur));
        }
    }
    proof {
        assert(results@.subrange(0, results@.len() as int) =~= results@);
    }
    if missing.len() == 0 {
        Ok(())
    } else {
        Err(Error::MissingPrerequisites(missing))
    }
}

} // verus!
