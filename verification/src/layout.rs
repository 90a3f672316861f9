//! The vocabulary the script compiler collaborator matches node parameters
//! against: a parameter slot's name, kind and multiplicity, and the
//! case-insensitive names of the waveform shapes.

use vstd::prelude::*;
use vstd::string::StringSliceAdditionalSpecFns;
use crate::waves::WaveShape;

verus! {

pub enum OpLayoutType {
    Op1,
    Op3,
    Number,
    Color,
    Param,
    GradStop,
    Wave,
}

pub struct OpLayoutParam {
    pub name: String,
    pub ptype: OpLayoutType,
    pub optional: bool,
    pub repeating: bool,
}

impl OpLayoutParam {
    /// A required, single-valued parameter slot.
    pub fn param(name: &str, ptype: OpLayoutType) -> (r: OpLayoutParam)
        ensures
            r.name@ == name@,
            r.ptype == ptype,
            r.optional == false,
            r.repeating == false,
    {
        OpLayoutParam { name: name.to_owned(), ptype, optional: false, repeating: false }
    }

    /// An optional, single-valued parameter slot.
    pub fn param_optional(name: &str, ptype: OpLayoutType) -> (r: OpLayoutParam)
        ensures
            r.name@ == name@,
            r.ptype == ptype,
            r.optional == true,
            r.repeating == false,
    {
        OpLayoutParam { name: name.to_owned(), ptype, optional: true, repeating: false }
    }

    /// An optional parameter slot that may appear repeatedly.
    pub fn param_repeating(name: &str, ptype: OpLayoutType) -> (r: OpLayoutParam)
        ensures
            r.name@ == name@,
            r.ptype == ptype,
            r.optional == true,
            r.repeating == true,
    {
        OpLayoutParam { name: name.to_owned(), ptype, optional: true, repeating: true }
    }
}

/// An ASCII byte lowered to its lowercase form.
pub open spec fn lower_byte(c: u8) -> u8 {
    if 65 <= c <= 90 {
        (c + 32) as u8
    } else {
        c
    }
}

/// A byte sequence lowered byte by byte.
pub open spec fn lower_bytes(s: Seq<u8>) -> Seq<u8> {
    s.map_values(|c: u8| lower_byte(c))
}

/// The shape a lowercase name denotes, if any.
pub open spec fn shape_for_name(s: Seq<u8>) -> Option<WaveShape> {
    if s =~= seq![102u8, 108u8, 97u8, 116u8] {
        Some(WaveShape::Flat)
    } else if s =~= seq![115u8, 113u8, 117u8, 97u8, 114u8, 101u8] {
        Some(WaveShape::Square)
    } else if s =~= seq![104u8, 97u8, 108u8, 102u8, 115u8, 113u8, 117u8, 97u8, 114u8, 101u8] {
        Some(WaveShape::HalfSquare)
    } else if s =~= seq![116u8, 114u8, 105u8, 97u8, 110u8, 103u8, 108u8, 101u8] {
        Some(WaveShape::Triangle)
    } else if s =~= seq![116u8, 114u8, 97u8, 112u8, 101u8, 122u8, 111u8, 105u8, 100u8] {
        Some(WaveShape::Trapezoid)
    } else if s =~= seq![115u8, 97u8, 119u8, 116u8, 111u8, 111u8, 116u8, 104u8] {
        Some(WaveShape::SawTooth)
    } else if s =~= seq![115u8, 113u8, 114u8, 116u8, 111u8, 111u8, 116u8, 104u8] {
        Some(WaveShape::SqrTooth)
    } else if s =~= seq![115u8, 97u8, 119u8, 100u8, 101u8, 99u8, 97u8, 121u8] {
        Some(WaveShape::SawDecay)
    } else if s =~= seq![115u8, 113u8, 114u8, 100u8, 101u8, 99u8, 97u8, 121u8] {
        Some(WaveShape::SqrDecay)
    } else if s =~= seq![115u8, 105u8, 110u8, 101u8] {
        Some(WaveShape::Sine)
    } else {
        None
    }
}

/// Whether the lowered form of `s` equals the pattern.
fn matches_lower(s: &[u8], pat: &Vec<u8>) -> (r: bool)
    ensures
        r == (lower_bytes(s@) =~= pat@),
{
    if s.len() != pat.len() {
        proof {
            assert(lower_bytes(s@).len() == s@.len());
        }
        return false;
    }
    let n = s.len();
    let mut i: usize = 0;
    while i < n
        invariant
            i <= n,
            n == s@.len(),
            n == pat@.len(),
            forall|j: int| 0 <= j < i ==> lower_bytes(s@)[j] == pat@[j],
        decreases n - i,
    {
        let c = s[i];
        let lc = if c >= 65 && c <= 90 {
            c + 32
        } else {
            c
        };
        proof {
            assert(lower_bytes(s@)[i as int] == lower_byte(s@[i as int]));
        }
        if lc != pat[i] {
            proof {
                assert(lower_bytes(s@)[i as int] != pat@[i as int]);
            }
            return false;
        }
        i = i + 1;
    }
    proof {
        assert(lower_bytes(s@) =~= pat@);
    }
    true
}

/// The shape a name denotes, matched case-insensitively.
pub fn get_waveshape(val: &str) -> (r: Option<WaveShape>)
    ensures
        r == shape_for_name(lower_bytes(val.spec_bytes())),
{
    let bytes = val.as_bytes();
    let mut pat: Vec<u8> = Vec::new();
    pat.push(102u8);
    pat.push(108u8);
    pat.push(97u8);
    pat.push(116u8);
    if matches_lower(bytes, &pat) {
        return Some(WaveShape::Flat);
    }
    pat.clear();
    pat.push(115u8);
    pat.push(113u8);
    pat.push(117u8);
    pat.push(97u8);
    pat.push(114u8);
    pat.push(101u8);
    if matches_lower(bytes, &pat) {
        return Some(WaveShape::Square);
    }
    pat.clear();
    pat.push(104u8);
    pat.push(97u8);
    pat.push(108u8);
    pat.push(102u8);
    pat.push(115u8);
    pat.push(113u8);
    pat.push(117u8);
    pat.push(97u8);
    pat.push(114u8);
    pat.push(101u8);
    if matches_lower(bytes, &pat) {
        return Some(WaveShape::HalfSquare);
    }
    pat.clear();
    pat.push(116u8);
    pat.push(114u8);
    pat.push(105u8);
    pat.push(97u8);
    pat.push(110u8);
    pat.push(103u8);
    pat.push(108u8);
    pat.push(101u8);
    if matches_lower(bytes, &pat) {
        return Some(WaveShape::Triangle);
    }
    pat.clear();
    pat.push(116u8);
    pat.push(114u8);
    pat.push(97u8);
    pat.push(112u8);
    pat.push(101u8);
    pat.push(122u8);
    pat.push(111u8);
    pat.push(105u8);
    pat.push(100u8);
    if matches_lower(bytes, &pat) {
        return Some(WaveShape::Trapezoid);
    }
    pat.clear();
    pat.push(115u8);
    pat.push(97u8);
    pat.push(119u8);
    pat.push(116u8);
    pat.push(111u8);
    pat.push(111u8);
    pat.push(116u8);
    pat.push(104u8);
    if matches_lower(bytes, &pat) {
        return Some(WaveShape::SawTooth);
    }
    pat.clear();
    pat.push(115u8);
    pat.push(113u8);
    pat.push(114u8);
    pat.push(116u8);
    pat.push(111u8);
    pat.push(111u8);
    pat.push(116u8);
    pat.push(104u8);
    if matches_lower(bytes, &pat) {
        return Some(WaveShape::SqrTooth);
    }
    pat.clear();
    pat.push(115u8);
    pat.push(97u8);
    pat.push(119u8);
    pat.push(100u8);
    pat.push(101u8);
    pat.push(99u8);
    pat.push(97u8);
    pat.push(121u8);
    if matches_lower(bytes, &pat) {
        return Some(WaveShape::SawDecay);
    }
    pat.clear();
    pat.push(115u8);
    pat.push(113u8);
    pat.push(114u8);
    pat.push(100u8);
    pat.push(101u8);
    pat.push(99u8);
    pat.push(97u8);
    pat.push(121u8);
    if matches_lower(bytes, &pat) {
        return Some(WaveShape::SqrDecay);
    }
    pat.clear();
    pat.push(115u8);
    pat.push(105u8);
    pat.push(110u8);
    pat.push(101u8);
    if matches_lower(bytes, &pat) {
        return Some(WaveShape::Sine);
    }
    None
}

} // verus!
