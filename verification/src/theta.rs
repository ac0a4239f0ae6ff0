//! The decoded metadata aggregate and its per-box decoders.
//!
//! One aggregate is built per parse: the dispatcher fills one slot per
//! recognized box name, and the aggregate is never mutated afterward.
//! `to_serializable` is the read-only projection offered for external
//! serialization; it drops the internal-only slots.

pub mod rdl2;
pub mod rdt;
pub mod rdtb;
pub mod rdtg;
pub mod rdtl;
pub mod rthu;

use vstd::prelude::*;

use crate::theta::rdl2::{Rdl2Box, Rdl2View};
use crate::theta::rdtb::{RdtbBox, RdtbView};
use crate::theta::rdtg::{RdtgBox, RdtgView};
use crate::theta::rdtl::{RdtlBox, RdtlView};
use crate::theta::rthu::RthuBox;

verus! {

/// A named byte payload retained verbatim, without structural decoding.
#[derive(Debug, PartialEq)]
pub struct RawBox {
    pub data: Vec<u8>,
}

/// A copy of a byte vector.
pub fn copy_bytes(v: &Vec<u8>) -> (r: Vec<u8>)
    ensures
        r@ == v@,
{
    let mut r: Vec<u8> = Vec::new();
    let mut i: usize = 0;
    while i < v.len()
        invariant
            i <= v.len(),
            r@.len() == i as int,
            forall|j: int| 0 <= j < i as int ==> r@[j] == v@[j],
        decreases v.len() - i,
    {
        r.push(v[i]);
        i += 1;
    }
    proof {
        assert(r@ =~= v@);
    }
    r
}

impl RawBox {
    /// A copy holding the same bytes.
    pub fn duplicate(&self) -> (r: RawBox)
        ensures
            r.data@ == self.data@,
    {
        RawBox { data: copy_bytes(&self.data) }
    }
}

/// The mathematical content of the metadata aggregate. Opaque payloads
/// appear as their byte sequences, decoded boxes as their views, and
/// descriptive strings as their character sequences.
#[verifier::ext_equal]
pub ghost struct MetaView {
    pub rthu: Option<Seq<u8>>,
    pub rmkn: Option<Seq<u8>>,
    pub rdt1_8: Option<Seq<u8>>,
    pub rdt9: Option<Seq<u8>>,
    pub rdta: Option<Seq<u8>>,
    pub rdtb: Option<RdtbView>,
    pub rdtc: Option<Seq<u8>>,
    pub rdtd: Option<Seq<u8>>,
    pub rdtg: Option<RdtgView>,
    pub rdth: Option<Seq<u8>>,
    pub rdti: Option<Seq<u8>>,
    pub rdtl: Option<RdtlView>,
    pub rdl2: Option<Rdl2View>,
    pub _mod: Seq<char>,
    pub _swr: Seq<char>,
    pub _day: Seq<char>,
    pub _xyz: Seq<char>,
    pub _mak: Seq<char>,
    pub manu: Seq<char>,
    pub modl: Seq<char>,
}

/// The metadata aggregate: one optional slot per known box name, and
/// the descriptive strings. The record layouts of the RDTA and RDTC
/// boxes are not established, so their payloads are retained verbatim.
#[derive(Debug, PartialEq)]
pub struct ThetaMeta {
    pub rthu: Option<RthuBox>,
    pub rmkn: Option<RawBox>,
    pub rdt1_8: Option<RawBox>,
    pub rdt9: Option<RawBox>,
    pub rdta: Option<RawBox>,
    pub rdtb: Option<RdtbBox>,
    pub rdtc: Option<RawBox>,
    pub rdtd: Option<RawBox>,
    pub rdtg: Option<RdtgBox>,
    pub rdth: Option<RawBox>,
    pub rdti: Option<RawBox>,
    pub rdtl: Option<RdtlBox>,
    pub rdl2: Option<Rdl2Box>,
    pub _mod: String,
    pub _swr: String,
    pub _day: String,
    pub _xyz: String,
    pub _mak: String,
    pub manu: String,
    pub modl: String,
}

impl View for ThetaMeta {
    type V = MetaView;

    open spec fn view(&self) -> MetaView {
        MetaView {
            rthu: match self.rthu {
                Some(b) => Some(b.data@),
                None => None,
            },
            rmkn: match self.rmkn {
                Some(b) => Some(b.data@),
                None => None,
            },
            rdt1_8: match self.rdt1_8 {
                Some(b) => Some(b.data@),
                None => None,
            },
            rdt9: match self.rdt9 {
                Some(b) => Some(b.data@),
                None => None,
            },
            rdta: match self.rdta {
                Some(b) => Some(b.data@),
                None => None,
            },
            rdtb: match self.rdtb {
                Some(b) => Some(b@),
                None => None,
            },
            rdtc: match self.rdtc {
                Some(b) => Some(b.data@),
                None => None,
            },
            rdtd: match self.rdtd {
                Some(b) => Some(b.data@),
                None => None,
            },
            rdtg: match self.rdtg {
                Some(b) => Some(b@),
                None => None,
            },
            rdth: match self.rdth {
                Some(b) => Some(b.data@),
                None => None,
            },
            rdti: match self.rdti {
                Some(b) => Some(b.data@),
                None => None,
            },
            rdtl: match self.rdtl {
                Some(b) => Some(b@),
                None => None,
            },
            rdl2: match self.rdl2 {
                Some(b) => Some(b@),
                None => None,
            },
            _mod: self._mod@,
            _swr: self._swr@,
            _day: self._day@,
            _xyz: self._xyz@,
            _mak: self._mak@,
            manu: self.manu@,
            modl: self.modl@,
        }
    }
}

/// The mathematical content of the serialization projection.
#[verifier::ext_equal]
pub ghost struct SerView {
    pub rdta: Option<Seq<u8>>,
    pub rdtb: Option<RdtbView>,
    pub rdtc: Option<Seq<u8>>,
    pub rdtg: Option<RdtgView>,
    pub rdtl: Option<RdtlView>,
    pub rdl2: Option<Rdl2View>,
    pub _mod: Seq<char>,
    pub _swr: Seq<char>,
    pub _day: Seq<char>,
    pub _xyz: Seq<char>,
    pub _mak: Seq<char>,
    pub manu: Seq<char>,
    pub modl: Seq<char>,
}

/// The read-only projection of the aggregate offered for external
/// serialization: the structured boxes and descriptive strings, with
/// the internal-only slots omitted.
#[derive(Debug, PartialEq)]
pub struct SerializableThetaMeta {
    pub rdta: Option<RawBox>,
    pub rdtb: Option<RdtbBox>,
    pub rdtc: Option<RawBox>,
    pub rdtg: Option<RdtgBox>,
    pub rdtl: Option<RdtlBox>,
    pub rdl2: Option<Rdl2Box>,
    pub _mod: String,
    pub _swr: String,
    pub _day: String,
    pub _xyz: String,
    pub _mak: String,
    pub manu: String,
    pub modl: String,
}

impl View for SerializableThetaMeta {
    type V = SerView;

    open spec fn view(&self) -> SerView {
        SerView {
            rdta: match self.rdta {
                Some(b) => Some(b.data@),
                None => None,
            },
            rdtb: match self.rdtb {
                Some(b) => Some(b@),
                None => None,
            },
            rdtc: match self.rdtc {
                Some(b) => Some(b.data@),
                None => None,
            },
            rdtg: match self.rdtg {
                Some(b) => Some(b@),
                None => None,
            },
            rdtl: match self.rdtl {
                Some(b) => Some(b@),
                None => None,
            },
            rdl2: match self.rdl2 {
                Some(b) => Some(b@),
                None => None,
            },
            _mod: self._mod@,
            _swr: self._swr@,
            _day: self._day@,
            _xyz: self._xyz@,
            _mak: self._mak@,
            manu: self.manu@,
            modl: self.modl@,
        }
    }
}

/// The serialization projection of an aggregate's content.
pub open spec fn spec_serializable_of(m: MetaView) -> SerView {
    SerView {
        rdta: m.rdta,
        rdtb: m.rdtb,
        rdtc: m.rdtc,
        rdtg: m.rdtg,
        rdtl: m.rdtl,
        rdl2: m.rdl2,
        _mod: m._mod,
        _swr: m._swr,
        _day: m._day,
        _xyz: m._xyz,
        _mak: m._mak,
        manu: m.manu,
        modl: m.modl,
    }
}

impl ThetaMeta {
    /// The read-only serialization projection: the same decoded content
    /// under the external field vocabulary, internal slots dropped.
    pub fn to_serializable(&self) -> (r: SerializableThetaMeta)
        ensures
            r@ == spec_serializable_of(self@),
    {
        let r = SerializableThetaMeta {
            rdta: match &self.rdta {
                Some(b) => Some(b.duplicate()),
                None => None,
            },
            rdtb: match &self.rdtb {
                Some(b) => Some(b.duplicate()),
                None => None,
            },
            rdtc: match &self.rdtc {
                Some(b) => Some(b.duplicate()),
                None => None,
            },
            rdtg: match &self.rdtg {
                Some(b) => Some(b.duplicate()),
                None => None,
            },
            rdtl: match &self.rdtl {
                Some(b) => Some(b.duplicate()),
                None => None,
            },
            rdl2: match &self.rdl2 {
                Some(b) => Some(b.duplicate()),
                None => None,
            },
            _mod: self._mod.clone(),
            _swr: self._swr.clone(),
            _day: self._day.clone(),
            _xyz: self._xyz.clone(),
            _mak: self._mak.clone(),
            manu: self.manu.clone(),
            modl: self.modl.clone(),
        };
        proof {
            assert(r@ =~= spec_serializable_of(self@));
        }
        r
    }
}

} // verus!
