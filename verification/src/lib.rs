//! Decoder library for the vendor metadata that RICOH THETA 360-degree
//! cameras embed in the user-data atom of their MP4 recordings.
//!
//! The byte-level decoding of the telemetry boxes is the core of the
//! library: a shared 16-byte header, per-box fixed-size record layouts,
//! and explicit little/big-endian field decoding. Floating-point fields
//! are exposed as their raw IEEE-754 bit patterns so that decoding is an
//! exact function of the input bytes; callers reinterpret the bits.
//!
//! The caller hands the dispatcher the flat list of named byte-blob
//! children of the container's user-data atom; walking the container
//! itself, and all file I/O, stay outside the library.

pub mod endian;
pub mod text;
pub mod theta;

use vstd::prelude::*;

use crate::text::{contains_substr, spec_contains, str_eq};
use crate::theta::rthu::RthuBox;
use crate::theta::{copy_bytes, rdl2, rdtb, rdtg, rdtl, MetaView, RawBox, ThetaMeta};

verus! {

/// The conditions under which a box payload fails to decode.
#[derive(Clone, Copy, Debug, PartialEq, Eq, Structural)]
pub enum ThetaError {
    /// Fewer than 16 bytes were supplied, so the shared header is incomplete.
    TruncatedHeader,
    /// The header claims more records than the payload holds.
    TruncatedPayload,
    /// The endian marker is neither 0x0123 nor 0x3210.
    UnknownEndianness,
}

/// One named child of the user-data atom, as the container walker
/// hands it over: a box name of four or more characters and its raw
/// payload.
#[derive(Debug)]
pub struct UdtaChild {
    pub name: String,
    pub data: Vec<u8>,
}

/// The mathematical content of a child.
#[verifier::ext_equal]
pub ghost struct ChildView {
    pub name: Seq<char>,
    pub data: Seq<u8>,
}

impl View for UdtaChild {
    type V = ChildView;

    open spec fn view(&self) -> ChildView {
        ChildView { name: self.name@, data: self.data@ }
    }
}

/// A failed decode of one box, recovered at the dispatcher level and
/// surfaced as a warning rather than aborting the whole parse.
#[derive(Debug)]
pub struct BoxWarning {
    pub name: String,
    pub error: ThetaError,
}

/// The mathematical content of a warning.
#[verifier::ext_equal]
pub ghost struct WarningView {
    pub name: Seq<char>,
    pub error: ThetaError,
}

impl View for BoxWarning {
    type V = WarningView;

    open spec fn view(&self) -> WarningView {
        WarningView { name: self.name@, error: self.error }
    }
}

/// How the dispatcher treats one child, decided once per child: the
/// descriptive string boxes are always decoded, other boxes only when
/// the caller's filter requests them (by name or by the wildcard), and
/// everything else is silently skipped.
#[derive(Clone, Copy, Debug, PartialEq, Eq, Structural)]
pub enum BoxDecision {
    AlwaysDecode,
    FilterMatch,
    Skip,
}

/// Whether the name is one of the descriptive string boxes that are
/// decoded unconditionally.
pub open spec fn spec_always_included(name: Seq<char>) -> bool {
    ||| name == "@mod"@
    ||| name == "@swr"@
    ||| name == "@day"@
    ||| name == "@xyz"@
    ||| name == "@mak"@
    ||| name == "manu"@
    ||| name == "modl"@
}

/// Whether the caller's filter requests this name: it holds the
/// wildcard or the exact name.
pub open spec fn spec_requested(name: Seq<char>, targets: Seq<Seq<char>>) -> bool {
    exists|i: int|
        0 <= i < targets.len() && ((#[trigger] targets[i]) == "all"@ || targets[i] == name)
}

/// The character sequences of an optional list of requested box names.
pub open spec fn spec_targets(t: Option<&Vec<String>>) -> Option<Seq<Seq<char>>> {
    match t {
        Some(v) => Some(v.deep_view()),
        None => None,
    }
}

/// The decision for one child name under an optional filter.
pub open spec fn spec_classify(name: Seq<char>, targets: Option<Seq<Seq<char>>>) -> BoxDecision {
    if spec_always_included(name) {
        BoxDecision::AlwaysDecode
    } else if targets matches Some(ts) && spec_requested(name, ts) {
        BoxDecision::FilterMatch
    } else {
        BoxDecision::Skip
    }
}

/// Decide how to treat one child, from its name and the caller's
/// optional filter.
pub fn classify_box(name: &String, target_boxes: Option<&Vec<String>>) -> (d: BoxDecision)
    ensures
        d == spec_classify(name@, spec_targets(target_boxes)),
{
    let n = name.as_str();
    if str_eq(n, "@mod") || str_eq(n, "@swr") || str_eq(n, "@day") || str_eq(n, "@xyz")
        || str_eq(n, "@mak") || str_eq(n, "manu") || str_eq(n, "modl") {
        return BoxDecision::AlwaysDecode;
    }
    match target_boxes {
        None => BoxDecision::Skip,
        Some(targets) => {
            let ghost ts = targets.deep_view();
            let mut i: usize = 0;
            while i < targets.len()
                invariant
                    ts == targets.deep_view(),
                    spec_targets(target_boxes) == Some(ts),
                    i <= targets.len(),
                    ts.len() == targets.len(),
                    !spec_always_included(name@),
                    forall|q: int| 0 <= q < i as int ==> !(#[trigger] ts[q] == "all"@ || ts[q]
                        == name@),
                decreases targets.len() - i,
            {
                proof {
                    assert(ts[i as int] == targets@[i as int]@);
                }
                if str_eq(targets[i].as_str(), "all") || str_eq(targets[i].as_str(), name.as_str()) {
                    proof {
                        assert((ts[i as int]) == "all"@ || ts[i as int] == name@);
                        assert(spec_requested(name@, ts));
                    }
                    return BoxDecision::FilterMatch;
                }
                i += 1;
            }
            BoxDecision::Skip
        },
    }
}

/// What dispatching one named payload does to the aggregate's content:
/// the matching slot is filled (opaque payloads verbatim, structured
/// payloads by their decoder, descriptive strings by lossy text
/// conversion), a failed decode leaves its slot as it was, and an
/// unknown name changes nothing.
pub open spec fn spec_match_box(m: MetaView, name: Seq<char>, data: Seq<u8>) -> MetaView {
    if name == "RDTB"@ {
        match rdtb::spec_read(data) {
            Ok(v) => MetaView { rdtb: Some(v), ..m },
            Err(_) => m,
        }
    } else if name == "RDTG"@ {
        match rdtg::spec_read(data) {
            Ok(v) => MetaView { rdtg: Some(v), ..m },
            Err(_) => m,
        }
    } else if name == "RDTL"@ {
        match rdtl::spec_read(data) {
            Ok(v) => MetaView { rdtl: Some(v), ..m },
            Err(_) => m,
        }
    } else if name == "RDL2"@ {
        match rdl2::spec_read(data) {
            Ok(v) => MetaView { rdl2: Some(v), ..m },
            Err(_) => m,
        }
    } else if name == "RTHU"@ {
        MetaView { rthu: Some(data), ..m }
    } else if name == "RMKN"@ {
        MetaView { rmkn: Some(data), ..m }
    } else if name == "RDT1-8"@ {
        MetaView { rdt1_8: Some(data), ..m }
    } else if name == "RDT9"@ {
        MetaView { rdt9: Some(data), ..m }
    } else if name == "RDTA"@ {
        MetaView { rdta: Some(data), ..m }
    } else if name == "RDTC"@ {
        MetaView { rdtc: Some(data), ..m }
    } else if name == "RDTD"@ {
        MetaView { rdtd: Some(data), ..m }
    } else if name == "RDTH"@ {
        MetaView { rdth: Some(data), ..m }
    } else if name == "RDTI"@ {
        MetaView { rdti: Some(data), ..m }
    } else if name == "@mod"@ {
        MetaView { _mod: text::utf8_lossy_of(data), ..m }
    } else if name == "@swr"@ {
        MetaView { _swr: text::utf8_lossy_of(data), ..m }
    } else if name == "@day"@ {
        MetaView { _day: text::utf8_lossy_of(data), ..m }
    } else if name == "@xyz"@ {
        MetaView { _xyz: text::utf8_lossy_of(data), ..m }
    } else if name == "@mak"@ {
        MetaView { _mak: text::utf8_lossy_of(data), ..m }
    } else if name == "manu"@ {
        MetaView { manu: text::utf8_lossy_of(data), ..m }
    } else if name == "modl"@ {
        MetaView { modl: text::utf8_lossy_of(data), ..m }
    } else {
        m
    }
}

/// The decode failure, if any, that dispatching one named payload
/// surfaces as a warning.
pub open spec fn spec_box_error(name: Seq<char>, data: Seq<u8>) -> Option<ThetaError> {
    if name == "RDTB"@ {
        match rdtb::spec_read(data) {
            Ok(_) => None,
            Err(e) => Some(e),
        }
    } else if name == "RDTG"@ {
        match rdtg::spec_read(data) {
            Ok(_) => None,
            Err(e) => Some(e),
        }
    } else if name == "RDTL"@ {
        match rdtl::spec_read(data) {
            Ok(_) => None,
            Err(e) => Some(e),
        }
    } else if name == "RDL2"@ {
        match rdl2::spec_read(data) {
            Ok(_) => None,
            Err(e) => Some(e),
        }
    } else {
        None
    }
}

/// Dispatch one named payload into the aggregate. A failed structured
/// decode leaves that slot empty and is returned so the caller can
/// surface it as a warning; every other outcome returns nothing.
#[verifier::rlimit(60)]
pub fn match_box(name: &String, data: &Vec<u8>, theta_meta: &mut ThetaMeta) -> (w: Option<
    ThetaError,
>)
    ensures
        final(theta_meta)@ == spec_match_box(old(theta_meta)@, name@, data@),
        w == spec_box_error(name@, data@),
{
    let n = name.as_str();
    if str_eq(n, "RDTB") {
        return match rdtb::RdtbBox::read(data.as_slice()) {
            Ok(b) => {
                theta_meta.rdtb = Some(b);
                None
            },
            Err(e) => Some(e),
        };
    }
    if str_eq(n, "RDTG") {
        return match rdtg::RdtgBox::read(data.as_slice()) {
            Ok(b) => {
                theta_meta.rdtg = Some(b);
                None
            },
            Err(e) => Some(e),
        };
    }
    if str_eq(n, "RDTL") {
        return match rdtl::RdtlBox::read(data.as_slice()) {
            Ok(b) => {
                theta_meta.rdtl = Some(b);
                None
            },
            Err(e) => Some(e),
        };
    }
    if str_eq(n, "RDL2") {
        return match rdl2::Rdl2Box::read(data.as_slice()) {
            Ok(b) => {
                theta_meta.rdl2 = Some(b);
                None
            },
            Err(e) => Some(e),
        };
    }
    if str_eq(n, "RTHU") {
        theta_meta.rthu = Some(RthuBox { data: copy_bytes(data) });
        return None;
    }
    if str_eq(n, "RMKN") {
        theta_meta.rmkn = Some(RawBox { data: copy_bytes(data) });
        return None;
    }
    if str_eq(n, "RDT1-8") {
        theta_meta.rdt1_8 = Some(RawBox { data: copy_bytes(data) });
        return None;
    }
    if str_eq(n, "RDT9") {
        theta_meta.rdt9 = Some(RawBox { data: copy_bytes(data) });
        return None;
    }
    if str_eq(n, "RDTA") {
        theta_meta.rdta = Some(RawBox { data: copy_bytes(data) });
        return None;
    }
    if str_eq(n, "RDTC") {
        theta_meta.rdtc = Some(RawBox { data: copy_bytes(data) });
        return None;
    }
    if str_eq(n, "RDTD") {
        theta_meta.rdtd = Some(RawBox { data: copy_bytes(data) });
        return None;
    }
    if str_eq(n, "RDTH") {
        theta_meta.rdth = Some(RawBox { data: copy_bytes(data) });
        return None;
    }
    if str_eq(n, "RDTI") {
        theta_meta.rdti = Some(RawBox { data: copy_bytes(data) });
        return None;
    }
    if str_eq(n, "@mod") {
        theta_meta._mod = text::lossy_string(data);
        return None;
    }
    if str_eq(n, "@swr") {
        theta_meta._swr = text::lossy_string(data);
        return None;
    }
    if str_eq(n, "@day") {
        theta_meta._day = text::lossy_string(data);
        return None;
    }
    if str_eq(n, "@xyz") {
        theta_meta._xyz = text::lossy_string(data);
        return None;
    }
    if str_eq(n, "@mak") {
        theta_meta._mak = text::lossy_string(data);
        return None;
    }
    if str_eq(n, "manu") {
        theta_meta.manu = text::lossy_string(data);
        return None;
    }
    if str_eq(n, "modl") {
        theta_meta.modl = text::lossy_string(data);
        return None;
    }
    None
}

/// The aggregate's content before any child is dispatched: every slot
/// empty, every descriptive string empty.
pub open spec fn spec_empty_meta() -> MetaView {
    MetaView {
        rthu: None,
        rmkn: None,
        rdt1_8: None,
        rdt9: None,
        rdta: None,
        rdtb: None,
        rdtc: None,
        rdtd: None,
        rdtg: None,
        rdth: None,
        rdti: None,
        rdtl: None,
        rdl2: None,
        _mod: Seq::empty(),
        _swr: Seq::empty(),
        _day: Seq::empty(),
        _xyz: Seq::empty(),
        _mak: Seq::empty(),
        manu: Seq::empty(),
        modl: Seq::empty(),
    }
}

/// The views of a list of children.
pub open spec fn spec_children_view(cs: Seq<UdtaChild>) -> Seq<ChildView> {
    cs.map_values(|c: UdtaChild| c@)
}

/// The views of a list of warnings.
pub open spec fn spec_warnings_view(ws: Seq<BoxWarning>) -> Seq<WarningView> {
    ws.map_values(|w: BoxWarning| w@)
}

/// What one child contributes to the aggregate: dispatched if its
/// decision is not to skip, otherwise nothing.
pub open spec fn spec_dispatch_step(
    m: MetaView,
    c: ChildView,
    targets: Option<Seq<Seq<char>>>,
) -> MetaView {
    if spec_classify(c.name, targets) != BoxDecision::Skip {
        spec_match_box(m, c.name, c.data)
    } else {
        m
    }
}

/// The aggregate's content after dispatching a list of children in
/// order, starting from the empty aggregate.
pub open spec fn spec_dispatch(children: Seq<ChildView>, targets: Option<Seq<Seq<char>>>) -> MetaView
    decreases children.len(),
{
    if children.len() == 0 {
        spec_empty_meta()
    } else {
        spec_dispatch_step(spec_dispatch(children.drop_last(), targets), children.last(), targets)
    }
}

/// The warning one child contributes, if its decode was attempted and
/// failed.
pub open spec fn spec_warning_of(c: ChildView, targets: Option<Seq<Seq<char>>>) -> Option<
    ThetaError,
> {
    if spec_classify(c.name, targets) != BoxDecision::Skip {
        spec_box_error(c.name, c.data)
    } else {
        None
    }
}

/// The warnings collected while dispatching a list of children in
/// order.
pub open spec fn spec_warnings(children: Seq<ChildView>, targets: Option<Seq<Seq<char>>>) -> Seq<
    WarningView,
>
    decreases children.len(),
{
    if children.len() == 0 {
        Seq::empty()
    } else {
        let rest = spec_warnings(children.drop_last(), targets);
        match spec_warning_of(children.last(), targets) {
            Some(e) => rest.push(WarningView { name: children.last().name, error: e }),
            None => rest,
        }
    }
}

/// Build the aggregate from the user-data atom's children: decode the
/// descriptive string boxes unconditionally and other boxes only when
/// the caller's filter requests them, skipping unknown or unrequested
/// names silently, and collect one warning per failed box decode.
pub fn parse_children(children: &Vec<UdtaChild>, target_boxes: Option<&Vec<String>>) -> (r: (
    ThetaMeta,
    Vec<BoxWarning>,
))
    ensures
        r.0@ == spec_dispatch(spec_children_view(children@), spec_targets(target_boxes)),
        spec_warnings_view(r.1@) == spec_warnings(
            spec_children_view(children@),
            spec_targets(target_boxes),
        ),
{
    let mut meta = ThetaMeta {
        rthu: None,
        rmkn: None,
        rdt1_8: None,
        rdt9: None,
        rdta: None,
        rdtb: None,
        rdtc: None,
        rdtd: None,
        rdtg: None,
        rdth: None,
        rdti: None,
        rdtl: None,
        rdl2: None,
        _mod: String::new(),
        _swr: String::new(),
        _day: String::new(),
        _xyz: String::new(),
        _mak: String::new(),
        manu: String::new(),
        modl: String::new(),
    };
    let mut warnings: Vec<BoxWarning> = Vec::new();
    proof {
        assert(meta@ =~= spec_empty_meta());
        assert(spec_children_view(children@.take(0)) =~= Seq::<ChildView>::empty());
        assert(spec_warnings_view(warnings@) =~= Seq::<WarningView>::empty());
    }
    let ghost targets = spec_targets(target_boxes);
    let mut i: usize = 0;
    while i < children.len()
        invariant
            i <= children.len(),
            targets == spec_targets(target_boxes),
            meta@ == spec_dispatch(spec_children_view(children@.take(i as int)), targets),
            spec_warnings_view(warnings@) == spec_warnings(
                spec_children_view(children@.take(i as int)),
                targets,
            ),
        decreases children.len() - i,
    {
        let c = &children[i];
        let ghost prev = spec_children_view(children@.take(i as int));
        let ghost cur = spec_children_view(children@.take(i as int + 1));
        proof {
            assert(cur.drop_last() =~= prev);
            assert(cur.last() == children@[i as int]@);
        }
        let decision = classify_box(&c.name, target_boxes);
        let w: Option<ThetaError> = match decision {
            BoxDecision::Skip => None,
            _ => match_box(&c.name, &c.data, &mut meta),
        };
        if let Some(e) = w {
            warnings.push(BoxWarning { name: c.name.clone(), error: e });
        }
        proof {
            assert(spec_warnings_view(warnings@) =~= spec_warnings(cur, targets));
        }
        i += 1;
    }
    proof {
        assert(children@.take(children@.len() as int) =~= children@);
    }
    (meta, warnings)
}

/// The vendor signature that must appear in the model string for the
/// aggregate to count as present.
pub open spec fn spec_has_signature(m: MetaView) -> bool {
    spec_contains(m.modl, "RICOH THETA"@)
}

/// Whether the aggregate's model string carries the vendor signature.
pub fn has_theta_signature(meta: &ThetaMeta) -> (r: bool)
    ensures
        r == spec_has_signature(meta@),
{
    contains_substr(meta.modl.as_str(), "RICOH THETA")
}

/// Build the aggregate from the user-data atom's children and admit it
/// only if the model string carries the vendor signature; otherwise
/// report its absence, the decoding notwithstanding. The collected
/// per-box warnings are returned either way.
pub fn parse_udta(children: &Vec<UdtaChild>, target_boxes: Option<&Vec<String>>) -> (r: (
    Option<ThetaMeta>,
    Vec<BoxWarning>,
))
    ensures
        ({
            let m = spec_dispatch(spec_children_view(children@), spec_targets(target_boxes));
            &&& (spec_has_signature(m) ==> (r.0 matches Some(meta) && meta@ == m))
            &&& (!spec_has_signature(m) ==> r.0 is None)
        }),
        spec_warnings_view(r.1@) == spec_warnings(
            spec_children_view(children@),
            spec_targets(target_boxes),
        ),
{
    let (meta, warnings) = parse_children(children, target_boxes);
    if has_theta_signature(&meta) {
        (Some(meta), warnings)
    } else {
        (None, warnings)
    }
}

} // verus!
