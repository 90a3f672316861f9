//! The graph: flat arrays of scalar and color node definitions, and one
//! explicit evaluation order.
//!
//! Children are referenced by position, never by pointer, which is how the
//! graph tolerates shared subexpressions and avoids ownership cycles. The
//! order invariant — every child of the node at order position `ix` occurs
//! strictly later in the order — makes the stored order an acyclic
//! precedence list: walked in reverse, every node's children are evaluated
//! before the node itself. `consistency_check` decides exactly that
//! invariant.

use vstd::prelude::*;
use vstd::string::StringExecFns;
use crate::op::{Op1Def, Op3Def};

verus! {

/// A discriminated index into the scalar or the color node array.
#[derive(Copy, Clone, Debug, PartialEq, Eq, Structural)]
pub enum ScriptIndex {
    Op1(usize),
    Op3(usize),
}

pub struct Op1DefRef {
    pub op: Op1Def,
    pub bufs: Vec<ScriptIndex>,
}

pub struct Op3DefRef {
    pub op: Op3Def,
    pub bufs: Vec<ScriptIndex>,
}

impl Op1DefRef {
    pub fn new(op: Op1Def, bufs: Vec<ScriptIndex>) -> (r: Op1DefRef)
        ensures
            r.op == op,
            r.bufs@ == bufs@,
    {
        Op1DefRef { op, bufs }
    }

    /// The raw index of the child reference at `num`, which must carry the
    /// requested kind: `1` for a scalar child, `3` for a color child.
    pub fn get_type_ref(&self, op: u8, num: usize) -> (r: usize)
        requires
            num < self.bufs@.len(),
            op == 1 || op == 3,
            op == 1 ==> self.bufs@[num as int] is Op1,
            op == 3 ==> self.bufs@[num as int] is Op3,
        ensures
            self.bufs@[num as int] == if op == 1 {
                ScriptIndex::Op1(r)
            } else {
                ScriptIndex::Op3(r)
            },
    {
        match self.bufs[num] {
            ScriptIndex::Op1(val) => val,
            ScriptIndex::Op3(val) => val,
        }
    }
}

impl Op3DefRef {
    pub fn new(op: Op3Def, bufs: Vec<ScriptIndex>) -> (r: Op3DefRef)
        ensures
            r.op == op,
            r.bufs@ == bufs@,
    {
        Op3DefRef { op, bufs }
    }

    /// The raw index of the child reference at `num`, which must carry the
    /// requested kind: `1` for a scalar child, `3` for a color child.
    pub fn get_type_ref(&self, op: u8, num: usize) -> (r: usize)
        requires
            num < self.bufs@.len(),
            op == 1 || op == 3,
            op == 1 ==> self.bufs@[num as int] is Op1,
            op == 3 ==> self.bufs@[num as int] is Op3,
        ensures
            self.bufs@[num as int] == if op == 1 {
                ScriptIndex::Op1(r)
            } else {
                ScriptIndex::Op3(r)
            },
    {
        match self.bufs[num] {
            ScriptIndex::Op1(val) => val,
            ScriptIndex::Op3(val) => val,
        }
    }
}

pub struct Script {
    pub order: Vec<ScriptIndex>,  // 0 is root
    pub op1s: Vec<Op1DefRef>,
    pub op3s: Vec<Op3DefRef>,
}

/// The index resolves to a node that exists.
pub open spec fn idx_exists(s: Script, x: ScriptIndex) -> bool {
    match x {
        ScriptIndex::Op1(n) => n < s.op1s@.len(),
        ScriptIndex::Op3(n) => n < s.op3s@.len(),
    }
}

/// The child references of the node the index resolves to.
pub open spec fn bufs_of(s: Script, x: ScriptIndex) -> Seq<ScriptIndex>
    recommends
        idx_exists(s, x),
{
    match x {
        ScriptIndex::Op1(n) => s.op1s@[n as int].bufs@,
        ScriptIndex::Op3(n) => s.op3s@[n as int].bufs@,
    }
}

/// The first position of `x` in the order at or after `from`, or the
/// order's length where it never occurs.
pub open spec fn first_pos_from(order: Seq<ScriptIndex>, x: ScriptIndex, from: int) -> int
    decreases order.len() - from,
{
    if from < 0 || from >= order.len() {
        order.len() as int
    } else if order[from] == x {
        from
    } else {
        first_pos_from(order, x, from + 1)
    }
}

/// The first position of `x` in the order, or the order's length where it
/// never occurs.
pub open spec fn first_pos(order: Seq<ScriptIndex>, x: ScriptIndex) -> int {
    first_pos_from(order, x, 0)
}

/// The order invariant: every entry resolves to a real node, and every
/// child of the node at order position `ix` first occurs strictly later in
/// the order (in particular, it occurs).
pub open spec fn consistent(s: Script) -> bool {
    forall|ix: int|
        0 <= ix < s.order@.len() ==> {
            &&& idx_exists(s, #[trigger] s.order@[ix])
            &&& forall|j: int|
                0 <= j < bufs_of(s, s.order@[ix]).len() ==> ix < #[trigger] first_pos(
                    s.order@,
                    bufs_of(s, s.order@[ix])[j],
                ) < s.order@.len()
        }
}

/// The first position found by a scan is no later than any occurrence, and
/// is an occurrence when one exists.
proof fn lemma_first_pos_from(order: Seq<ScriptIndex>, x: ScriptIndex, from: int, at: int)
    requires
        0 <= from <= at < order.len(),
        order[at] == x,
    ensures
        from <= first_pos_from(order, x, from) <= at,
        order[first_pos_from(order, x, from)] == x,
    decreases order.len() - from,
{
    if order[from] != x {
        lemma_first_pos_from(order, x, from + 1, at);
    }
}

/// In a consistent graph no node refers to itself: a self reference would
/// have to occur strictly later than every position it stands at.
pub proof fn lemma_consistent_no_self_reference(s: Script, ix: int, j: int)
    requires
        consistent(s),
        0 <= ix < s.order@.len(),
        0 <= j < bufs_of(s, s.order@[ix]).len(),
    ensures
        bufs_of(s, s.order@[ix])[j] != s.order@[ix],
{
    let c = bufs_of(s, s.order@[ix])[j];
    assert(ix < first_pos(s.order@, c) < s.order@.len());
    if c == s.order@[ix] {
        lemma_first_pos_from(s.order@, s.order@[ix], 0, ix);
    }
}

/// Scan the order for the first occurrence of `x`.
fn find_first(order: &Vec<ScriptIndex>, x: ScriptIndex) -> (r: Option<usize>)
    ensures
        match r {
            Some(p) => first_pos(order@, x) == p && p < order@.len(),
            None => first_pos(order@, x) == order@.len(),
        },
{
    let n = order.len();
    let mut i: usize = 0;
    while i < n
        invariant
            i <= n,
            n == order@.len(),
            first_pos_from(order@, x, 0) == first_pos_from(order@, x, i as int),
        decreases n - i,
    {
        if order[i] == x {
            return Some(i);
        }
        i = i + 1;
    }
    None
}

/// The decimal digits of a number, appended to a string.
fn append_usize(s: &mut String, n: usize)
    decreases n,
{
    if n >= 10 {
        append_usize(s, n / 10);
    }
    let d = n % 10;
    match d {
        0 => s.append("0"),
        1 => s.append("1"),
        2 => s.append("2"),
        3 => s.append("3"),
        4 => s.append("4"),
        5 => s.append("5"),
        6 => s.append("6"),
        7 => s.append("7"),
        8 => s.append("8"),
        _ => s.append("9"),
    }
}

/// The `1/` or `3/` spelling of a discriminated index, appended.
fn append_scix(s: &mut String, x: ScriptIndex) {
    match x {
        ScriptIndex::Op1(n) => {
            s.append("1/");
            append_usize(s, n);
        },
        ScriptIndex::Op3(n) => {
            s.append("3/");
            append_usize(s, n);
        },
    }
}

impl Script {
    pub fn new() -> (s: Script)
        ensures
            s.order@.len() == 0,
            s.op1s@.len() == 0,
            s.op3s@.len() == 0,
    {
        Script { order: Vec::new(), op1s: Vec::new(), op3s: Vec::new() }
    }

    /// Decide the order invariant: `Ok` exactly when every order entry
    /// resolves and every child reference first occurs strictly later in
    /// the order; otherwise a description of the earliest violation.
    pub fn consistency_check(&self) -> (r: Result<(), String>)
        ensures
            r is Ok <==> consistent(*self),
    {
        let mut ix: usize = 0;
        while ix < self.order.len()
            invariant
                ix <= self.order@.len(),
                forall|i: int|
                    0 <= i < ix ==> {
                        &&& idx_exists(*self, #[trigger] self.order@[i])
                        &&& forall|j: int|
                            0 <= j < bufs_of(*self, self.order@[i]).len() ==> i < #[trigger] first_pos(
                                self.order@,
                                bufs_of(*self, self.order@[i])[j],
                            ) < self.order@.len()
                    },
            decreases self.order@.len() - ix,
        {
            let scix = self.order[ix];
            let buflist: &Vec<ScriptIndex> = match scix {
                ScriptIndex::Op1(bufnum) => {
                    if bufnum >= self.op1s.len() {
                        let mut msg = String::new();
                        msg.append("order entry ");
                        append_scix(&mut msg, scix);
                        msg.append(" does not exist");
                        return Err(msg);
                    }
                    &self.op1s[bufnum].bufs
                },
                ScriptIndex::Op3(bufnum) => {
                    if bufnum >= self.op3s.len() {
                        let mut msg = String::new();
                        msg.append("order entry ");
                        append_scix(&mut msg, scix);
                        msg.append(" does not exist");
                        return Err(msg);
                    }
                    &self.op3s[bufnum].bufs
                },
            };
            let mut jx: usize = 0;
            while jx < buflist.len()
                invariant
                    jx <= buflist@.len(),
                    ix < self.order@.len(),
                    buflist@ == bufs_of(*self, self.order@[ix as int]),
                    forall|j: int|
                        0 <= j < jx ==> ix < #[trigger] first_pos(self.order@, buflist@[j])
                            < self.order@.len(),
                decreases buflist@.len() - jx,
            {
                let scjx = buflist[jx];
                match find_first(&self.order, scjx) {
                    Some(pos) => {
                        if pos <= ix {
                            let mut msg = String::new();
                            msg.append("order entry ");
                            append_scix(&mut msg, scix);
                            msg.append(" refers to ");
                            append_scix(&mut msg, scjx);
                            msg.append(" which is earlier in the order");
                            return Err(msg);
                        }
                    },
                    None => {
                        let mut msg = String::new();
                        msg.append("order entry ");
                        append_scix(&mut msg, scix);
                        msg.append(" refers to ");
                        append_scix(&mut msg, scjx);
                        msg.append(" which does not exist");
                        return Err(msg);
                    },
                }
                jx = jx + 1;
            }
            ix = ix + 1;
        }
        Ok(())
    }
}

} // verus!
