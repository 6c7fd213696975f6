//! Small utilities on the runtime state.

use vstd::prelude::*;
use crate::object::Runtime;

verus! {

/// Returns the program name, if one was set.
pub fn get_program_name(rt: &Runtime) -> (r: Option<String>)
    ensures
        r == rt.program_name,
{
    match &rt.program_name {
        Some(s) => Some(s.clone()),
        None => None,
    }
}

/// Sets or clears the program name.
pub fn set_program_name(rt: &mut Runtime, name: Option<&str>)
    ensures
        final(rt).registry == old(rt).registry,
        final(rt).instances == old(rt).instances,
        final(rt).journal == old(rt).journal,
        match (final(rt).program_name, name) {
            (Some(s), Some(n)) => s@ == n@,
            (None, None) => true,
            _ => false,
        },
        old(rt).wf() ==> final(rt).wf(),
{
    rt.program_name = match name {
        Some(n) => Some(String::from_str(n)),
        None => None,
    };
    proof {
        if old(rt).wf() {
            assert forall|j: int| 0 <= j < rt.instances@.len() implies rt.wf_instance(j) by {
                assert(old(rt).wf_instance(j));
            }
        }
    }
}

} // verus!
