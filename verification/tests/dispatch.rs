//! The dispatcher: decision rules, aggregate population, warnings,
//! the vendor signature check, and the serialization projection.

use theta_mp4::theta::rthu::thumbnail_path;
use theta_mp4::theta::ThetaMeta;
use theta_mp4::{classify_box, match_box, parse_children, parse_udta, BoxDecision, ThetaError};
use theta_mp4::{has_theta_signature, UdtaChild};

fn empty_meta() -> ThetaMeta {
    ThetaMeta {
        rthu: None,
        rmkn: None,
        rdt1_8: None,
        rdt9: None,
        rdta: None,
        rdtb: None,
        rdtc: None,
        rdtd: None,
        rdtg: None,
        rdth: None,
        rdti: None,
        rdtl: None,
        rdl2: None,
        _mod: String::new(),
        _swr: String::new(),
        _day: String::new(),
        _xyz: String::new(),
        _mak: String::new(),
        manu: String::new(),
        modl: String::new(),
    }
}

fn rdtg_payload() -> Vec<u8> {
    let mut v = vec![
        0x02, 0x00, 0x00, 0x00, 0x01, 0x00, 0x02, 0x00, 0x23, 0x01, 0, 0, 0, 0, 0, 0,
    ];
    v.extend_from_slice(&1u64.to_le_bytes());
    v.extend_from_slice(&4u64.to_le_bytes());
    v
}

#[test]
fn classify_decisions() {
    let targets = vec!["RDTG".to_string()];
    assert_eq!(
        classify_box(&"modl".to_string(), None),
        BoxDecision::AlwaysDecode
    );
    assert_eq!(
        classify_box(&"@mak".to_string(), Some(&targets)),
        BoxDecision::AlwaysDecode
    );
    assert_eq!(
        classify_box(&"RDTG".to_string(), Some(&targets)),
        BoxDecision::FilterMatch
    );
    assert_eq!(
        classify_box(&"RDTB".to_string(), Some(&targets)),
        BoxDecision::Skip
    );
    assert_eq!(classify_box(&"RDTB".to_string(), None), BoxDecision::Skip);

    let wildcard = vec!["all".to_string()];
    assert_eq!(
        classify_box(&"RDTB".to_string(), Some(&wildcard)),
        BoxDecision::FilterMatch
    );
}

#[test]
fn match_box_populates_slots() {
    let mut meta = empty_meta();

    let w = match_box(&"RDTG".to_string(), &rdtg_payload(), &mut meta);
    assert_eq!(w, None);
    assert_eq!(meta.rdtg.as_ref().unwrap().timestamps(), vec![1u64, 4u64]);

    let w = match_box(&"modl".to_string(), &b"RICOH THETA Z1".to_vec(), &mut meta);
    assert_eq!(w, None);
    assert_eq!(meta.modl, "RICOH THETA Z1");

    let w = match_box(&"RMKN".to_string(), &vec![1, 2, 3], &mut meta);
    assert_eq!(w, None);
    assert_eq!(meta.rmkn.as_ref().unwrap().data, vec![1, 2, 3]);

    // An unknown name changes nothing.
    let before_rdtg = meta.rdtg.as_ref().unwrap().timestamps();
    let w = match_box(&"XXXX".to_string(), &vec![9, 9], &mut meta);
    assert_eq!(w, None);
    assert_eq!(meta.rdtg.as_ref().unwrap().timestamps(), before_rdtg);
    assert_eq!(meta.modl, "RICOH THETA Z1");
}

#[test]
fn match_box_reports_failed_decode() {
    let mut meta = empty_meta();
    let w = match_box(&"RDTB".to_string(), &vec![0u8; 10], &mut meta);
    assert_eq!(w, Some(ThetaError::TruncatedHeader));
    assert!(meta.rdtb.is_none());
}

/// Lossy text conversion replaces invalid sequences instead of failing.
#[test]
fn descriptive_box_conversion_is_lossy() {
    let mut meta = empty_meta();
    let w = match_box(&"modl".to_string(), &vec![0xff, 0x41], &mut meta);
    assert_eq!(w, None);
    assert_eq!(meta.modl, "\u{fffd}A");
}

#[test]
fn parse_children_filters_and_collects_warnings() {
    let children = vec![
        UdtaChild {
            name: "modl".to_string(),
            data: b"RICOH THETA Z1".to_vec(),
        },
        UdtaChild {
            name: "RDTG".to_string(),
            data: rdtg_payload(),
        },
        UdtaChild {
            name: "RDTB".to_string(),
            data: vec![0u8; 4], // truncated, will warn
        },
        UdtaChild {
            name: "RDTL".to_string(),
            data: vec![0u8; 48], // not requested, skipped silently
        },
    ];
    let targets = vec!["RDTG".to_string(), "RDTB".to_string()];
    let (meta, warnings) = parse_children(&children, Some(&targets));
    assert_eq!(meta.modl, "RICOH THETA Z1");
    assert!(meta.rdtg.is_some());
    assert!(meta.rdtb.is_none());
    assert!(meta.rdtl.is_none());
    assert_eq!(warnings.len(), 1);
    assert_eq!(warnings[0].name, "RDTB");
    assert_eq!(warnings[0].error, ThetaError::TruncatedHeader);
}

#[test]
fn signature_admits_the_aggregate() {
    let with_sig = vec![UdtaChild {
        name: "modl".to_string(),
        data: b"RICOH THETA V".to_vec(),
    }];
    let (meta, warnings) = parse_udta(&with_sig, None);
    assert!(warnings.is_empty());
    let meta = meta.expect("signature should admit the aggregate");
    assert!(has_theta_signature(&meta));

    let without_sig = vec![UdtaChild {
        name: "modl".to_string(),
        data: b"OTHER CAMERA".to_vec(),
    }];
    let (meta, _) = parse_udta(&without_sig, None);
    assert!(meta.is_none());

    // Decoding runs before the signature check, so warnings are
    // collected even when the signature is absent.
    let mixed = vec![
        UdtaChild {
            name: "RDTG".to_string(),
            data: vec![0u8; 3],
        },
        UdtaChild {
            name: "modl".to_string(),
            data: b"OTHER".to_vec(),
        },
    ];
    let targets = vec!["all".to_string()];
    let (meta, warnings) = parse_udta(&mixed, Some(&targets));
    assert!(meta.is_none());
    assert_eq!(warnings.len(), 1);
    assert_eq!(warnings[0].error, ThetaError::TruncatedHeader);
}

#[test]
fn serializable_projection_keeps_content() {
    let children = vec![
        UdtaChild {
            name: "modl".to_string(),
            data: b"RICOH THETA Z1".to_vec(),
        },
        UdtaChild {
            name: "@swr".to_string(),
            data: b"1.0".to_vec(),
        },
        UdtaChild {
            name: "RDTG".to_string(),
            data: rdtg_payload(),
        },
    ];
    let targets = vec!["RDTG".to_string()];
    let (meta, _) = parse_udta(&children, Some(&targets));
    let meta = meta.unwrap();
    let ser = meta.to_serializable();
    assert_eq!(ser.modl, "RICOH THETA Z1");
    assert_eq!(ser._swr, "1.0");
    assert_eq!(ser.rdtg.as_ref().unwrap().timestamps(), vec![1u64, 4u64]);
    assert!(ser.rdtb.is_none());
}

/// Thumbnail export derives a sibling path named after the input stem.
#[test]
fn thumbnail_path_is_sibling_with_suffix() {
    assert_eq!(thumbnail_path("a/b/clip.mp4"), "a/b/clip_thumbnail.jfif");
    assert_eq!(thumbnail_path("clip.mp4"), "clip_thumbnail.jfif");
    assert_eq!(thumbnail_path("/clip.mp4"), "/clip_thumbnail.jfif");
    assert_eq!(thumbnail_path("a/b/noext"), "a/b/noext_thumbnail.jfif");
    assert_eq!(thumbnail_path("a/.hidden"), "a/.hidden_thumbnail.jfif");
    assert_eq!(thumbnail_path("dir/"), "dir/output_thumbnail.jfif");
}
