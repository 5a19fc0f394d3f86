//! The projects that are there locally.

use vstd::prelude::*;
use crate::project::{Program, ProjectID};

verus! {

/// The projects of one program, one for each file name and in their order.
pub fn projects(prog: Program, names: &Vec<String>) -> (res: Vec<ProjectID>)
    ensures
        res@.len() == names@.len(),
        forall|i: int| 0 <= i < names@.len() ==> (#[trigger] res@[i])@ == (prog, names@[i]@),
{
    let mut res: Vec<ProjectID> = Vec::new();
    let mut i: usize = 0;
    while i < names.len()
        invariant
            i <= names.len(),
            res@.len() == i,
            forall|j: int| 0 <= j < i ==> (#[trigger] res@[j])@ == (prog, names@[j]@),
        decreases names.len() - i,
    {
        res.push(ProjectID { program: prog, name: names[i].clone() });
        i += 1;
    }
    res
}

/// All local projects, from the names of the files in each program's base
/// directory: those of Mindstorms first, then those of Spike.
pub fn all_projects(mindstorms: &Vec<String>, spike: &Vec<String>) -> (res: Vec<ProjectID>)
    ensures
        res@.len() == mindstorms@.len() + spike@.len(),
        forall|i: int|
            0 <= i < mindstorms@.len() ==> (#[trigger] res@[i])@ == (
                Program::Mindstorms,
                mindstorms@[i]@,
            ),
        forall|i: int|
            0 <= i < spike@.len() ==> (#[trigger] res@[mindstorms@.len() + i])@ == (
                Program::Spike,
                spike@[i]@,
            ),
{
    let mut res = projects(Program::Mindstorms, mindstorms);
    let mut pp = projects(Program::Spike, spike);
    let ghost first = res@;
    let ghost second = pp@;
    res.append(&mut pp);
    assert forall|i: int| 0 <= i < spike@.len() implies (#[trigger] res@[mindstorms@.len() + i])@
        == (Program::Spike, spike@[i]@) by {
        assert(res@[mindstorms@.len() + i] == second[i]);
    }
    assert forall|i: int| 0 <= i < mindstorms@.len() implies (#[trigger] res@[i])@ == (
        Program::Mindstorms,
        mindstorms@[i]@,
    ) by {
        assert(res@[i] == first[i]);
    }
    res
}

} // verus!
