//! Numeric parameters of a control sequence.

use vstd::prelude::*;

verus! {

/// Parameter groups in order; a group holds a parameter and its subparameters.
#[derive(Debug)]
pub struct CsiParams {
    pub groups: Vec<Vec<u16>>,
}

impl View for CsiParams {
    type V = Seq<Seq<u16>>;

    open spec fn view(&self) -> Seq<Seq<u16>> {
        self.groups@.map_values(|g: Vec<u16>| g@)
    }
}

/// First value of group `i`, if there is one.
pub open spec fn param(groups: Seq<Seq<u16>>, i: int) -> Option<u16> {
    if 0 <= i < groups.len() && groups[i].len() > 0 {
        Some(groups[i][0])
    } else {
        None
    }
}

/// First value of group `i`, or `default` when there is none.
pub open spec fn param_or(groups: Seq<Seq<u16>>, i: int, default: u16) -> u16 {
    match param(groups, i) {
        Some(v) => v,
        None => default,
    }
}

/// First parameter, or `default` when absent or zero.
pub open spec fn count_param(groups: Seq<Seq<u16>>, default: int) -> int {
    match param(groups, 0) {
        Some(v) => if v == 0 {
            default
        } else {
            v as int
        },
        None => default,
    }
}

impl CsiParams {
    /// Number of groups.
    pub fn len(&self) -> (n: usize)
        ensures
            n == self@.len(),
    {
        self.groups.len()
    }

    /// First value of group `i`, if there is one.
    pub fn first(&self, i: usize) -> (v: Option<u16>)
        ensures
            v == param(self@, i as int),
    {
        if i < self.groups.len() && self.groups[i].len() > 0 {
            Some(self.groups[i][0])
        } else {
            None
        }
    }

    /// First value of group `i`, or `default` when there is none.
    pub fn first_or(&self, i: usize, default: u16) -> (v: u16)
        ensures
            v == param_or(self@, i as int, default),
    {
        match self.first(i) {
            Some(v) => v,
            None => default,
        }
    }
}

/// First CSI parameter, or `default` when absent/zero-as-default applies.
pub fn param1(params: &CsiParams, default: usize) -> (n: usize)
    ensures
        n == count_param(params@, default as int),
{
    match params.first(0) {
        Some(v) => if v == 0 {
            default
        } else {
            v as usize
        },
        None => default,
    }
}

} // verus!
