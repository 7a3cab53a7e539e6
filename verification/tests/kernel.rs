use spire_kernel::integration::IntegratorBackend;
use spire_kernel::io::csv::{check_row_width, detect_delimiter, looks_like_header, scan_numeric_table};
use spire_kernel::io::network::{
    admit_request, after_attempt, compute_backoff, NetworkDiagnostics, NetworkThrottleConfig,
    RequestOutcome, RequestStep, ResponseMode,
};
use spire_kernel::io::provenance::{
    format_provenance_block, provenance_block, record_for_payload, verify_provenance, ProvenanceRecord,
    Sha256StateHasher, SessionPdgProvenance, StateHasher,
};
use spire_kernel::kinematics::{factorial, ReferenceFrame};
use spire_kernel::math::precision::PrecisionEscalation;
use spire_kernel::nlo::dipole::{dipole_triples, identify_splitting, CataniSeymourScheme, SplittingType};
use spire_kernel::pdf::{beam_description, parton_channels, Hadron, PdfUncertaintyMode, PDG_D, PDG_GLUON, PDG_U, PDG_UBAR};
use spire_kernel::SpireError;

#[test]
fn error_display_format() {
    let err = SpireError::UnknownParticle("foo".into());
    assert!(err.message().contains("foo"));
    assert_eq!(err.message(), "Unknown particle: foo");
}

#[test]
fn error_is_clone() {
    let err = SpireError::InternalError("test".into());
    let _ = err.clone();
}

#[test]
fn error_messages_by_kind() {
    assert_eq!(SpireError::ConservationViolation("x".into()).message(), "Conservation violation: x");
    assert_eq!(SpireError::DataMismatch("y".into()).message(), "Data mismatch: y");
    assert_eq!(SpireError::DatabaseError("z".into()).message(), "Database error: z");
}

#[test]
fn reference_frame_equality() {
    assert_eq!(ReferenceFrame::CentreOfMass, ReferenceFrame::CentreOfMass);
    assert_ne!(ReferenceFrame::CentreOfMass, ReferenceFrame::Lab);
}

#[test]
fn rambo_factorial() {
    assert_eq!(factorial(0), 1);
    assert_eq!(factorial(1), 1);
    assert_eq!(factorial(5), 120);
    assert_eq!(factorial(10), 3628800);
    assert_eq!(factorial(20), 2432902008176640000);
}

#[test]
fn hadron_proton_parton_content() {
    let content = Hadron::Proton.parton_content();
    assert!(content.contains(&PDG_U));
    assert!(content.contains(&PDG_D));
    assert!(content.contains(&PDG_GLUON));
    assert_eq!(content.len(), 7);
    assert_eq!(Hadron::PionMinus.parton_content().len(), 5);
}

#[test]
fn hadron_labels() {
    assert_eq!(Hadron::Proton.label(), "p");
    assert_eq!(Hadron::AntiProton.label(), "p-bar");
    assert_eq!(Hadron::PionPlus.label(), "pi+");
    assert_eq!(Hadron::PionMinus.label(), "pi-");
}

#[test]
fn small_enums() {
    assert_ne!(PdfUncertaintyMode::Hessian, PdfUncertaintyMode::MonteCarloReplicas);
    assert_ne!(PrecisionEscalation::Standard, PrecisionEscalation::EscalatedFallback);
    assert_eq!(IntegratorBackend::default(), IntegratorBackend::Cpu);
    assert!(!IntegratorBackend::gpu_available());
    assert_eq!(IntegratorBackend::Gpu.description(), "GPU (WebGPU compute shader)");
}

#[test]
fn identify_splitting_quark_gluon() {
    assert_eq!(identify_splitting(2, 21), Some(SplittingType::QuarkToQuarkGluon));
    assert_eq!(identify_splitting(-1, 21), Some(SplittingType::QuarkToQuarkGluon));
}

#[test]
fn identify_splitting_gluon_gluon() {
    assert_eq!(identify_splitting(21, 21), Some(SplittingType::GluonToGluonGluon));
}

#[test]
fn identify_splitting_gluon_quark() {
    assert_eq!(identify_splitting(21, 3), Some(SplittingType::GluonToQuarkAntiquark));
    assert_eq!(identify_splitting(21, -5), Some(SplittingType::GluonToQuarkAntiquark));
}

#[test]
fn identify_splitting_invalid() {
    assert_eq!(identify_splitting(1, 2), None);
    assert_eq!(identify_splitting(11, 21), None);
    assert_eq!(identify_splitting(7, 21), None);
}

#[test]
fn cs_scheme_too_few_partons() {
    match dipole_triples(2, &[21, 21]) {
        Err(SpireError::KinematicsForbidden(m)) => assert!(m.contains("at least 3")),
        _ => panic!("expected KinematicsForbidden"),
    }
}

#[test]
fn cs_scheme_mismatched_lengths() {
    assert!(matches!(dipole_triples(3, &[21, 21]), Err(SpireError::InternalError(_))));
}

#[test]
fn cs_scheme_three_gluons_triples() {
    // Every ordered triple of three gluons is a g -> g g dipole: 3! = 6.
    let t = dipole_triples(3, &[21, 21, 21]).unwrap();
    assert_eq!(t.len(), 6);
    assert_eq!((t[0].emitter, t[0].emitted, t[0].spectator), (0, 1, 2));
    assert!(t.iter().all(|d| d.splitting == SplittingType::GluonToGluonGluon));
    // q qbar g: the quark and the antiquark can emit the gluon, and the gluon
    // can split into either; quark-quark pairs give nothing.
    let q = dipole_triples(3, &[1, -1, 21]).unwrap();
    assert_eq!(q.len(), 4);
    assert_eq!(CataniSeymourScheme.scheme_name(), "Catani-Seymour (massless FF)");
}

#[test]
fn delimiter_detection_semicolon() {
    let layout = scan_numeric_table("x;y;dy\n1;2;0.1\n2;3;0.2").unwrap();
    assert_eq!(layout.delimiter, ';');
    assert_eq!(layout.rows.len(), 2);
    assert_eq!(layout.rows[0].fields, vec!["1".to_string(), "2".to_string(), "0.1".to_string()]);
    assert_eq!(layout.rows[1].line_number, 3);
}

#[test]
fn header_and_comment_skipping() {
    let layout = scan_numeric_table("# c\nx,y\n0.1,1\n0.2,2").unwrap();
    assert!(layout.skipped_lines >= 2);
    assert_eq!(layout.skipped_lines, 2);
    assert_eq!(layout.rows.len(), 2);
}

#[test]
fn scan_trims_and_reports_empty_tables() {
    let layout = scan_numeric_table("  1 \t 2 \r\n\n3\t4\n").unwrap();
    assert_eq!(layout.delimiter, '\t');
    assert_eq!(layout.rows[0].fields, vec!["1".to_string(), "2".to_string()]);
    assert_eq!(layout.skipped_lines, 1);
    match scan_numeric_table("# only\nx,y\n") {
        Err(SpireError::DataParseError(m)) => assert_eq!(m, "No numeric data rows found in input file"),
        _ => panic!("expected DataParseError"),
    }
}

#[test]
fn delimiter_and_header_helpers() {
    assert_eq!(detect_delimiter("a,b;c;d"), ';');
    assert_eq!(detect_delimiter("plain"), ',');
    assert_eq!(detect_delimiter("a,b\tc"), ',');
    assert!(looks_like_header(&["1.0", "x"]));
    assert!(looks_like_header(&["1.0", "2e", "3"]));
    assert!(!looks_like_header(&["1.0", "-2", ""]));
}

#[test]
fn network_defaults_and_backoff() {
    let cfg = NetworkThrottleConfig::default();
    assert_eq!(cfg.requests_per_second, 5);
    assert_eq!(cfg.max_queue_depth, 16);
    assert_eq!(compute_backoff(250, 0), 250);
    assert_eq!(compute_backoff(250, 2), 1000);
    assert_eq!(compute_backoff(250, 6), 16000);
    assert_eq!(compute_backoff(250, 40), 16000);
    assert_eq!(compute_backoff(u64::MAX, 1), u64::MAX);
}

#[test]
fn network_retry_then_fail() {
    let cfg = NetworkThrottleConfig::default();
    let mut diag = NetworkDiagnostics::new();
    let busy = RequestOutcome::Status(503, "Service Unavailable".into());
    assert!(matches!(after_attempt(&cfg, ResponseMode::Required, 0, &busy, &mut diag), RequestStep::Retry(250)));
    assert!(matches!(after_attempt(&cfg, ResponseMode::Required, 1, &busy, &mut diag), RequestStep::Retry(500)));
    assert!(matches!(after_attempt(&cfg, ResponseMode::Required, 2, &busy, &mut diag), RequestStep::Retry(1000)));
    match after_attempt(&cfg, ResponseMode::Required, 3, &busy, &mut diag) {
        RequestStep::Fail(SpireError::DatabaseError(m)) => {
            assert_eq!(m, "PDG REST request failed with HTTP 503 Service Unavailable")
        }
        _ => panic!("expected failure"),
    }
    assert_eq!(diag.responses_503, 4);
    assert_eq!(diag.retries, 3);
    assert_eq!(diag.last_backoff_ms, Some(1000));
    assert_eq!(diag.last_status_code, Some(503));
    let missing = RequestOutcome::Status(404, "Not Found".into());
    assert!(matches!(after_attempt(&cfg, ResponseMode::Optional404, 0, &missing, &mut diag), RequestStep::Missing));
    assert!(matches!(after_attempt(&cfg, ResponseMode::Required, 0, &missing, &mut diag), RequestStep::Fail(_)));
    let ok = RequestOutcome::Success(200);
    assert!(matches!(after_attempt(&cfg, ResponseMode::Required, 0, &ok, &mut diag), RequestStep::Decode));
    assert!(diag.last_error.is_none());
}

#[test]
fn network_transport_timeout_message() {
    let cfg = NetworkThrottleConfig::default();
    let mut diag = NetworkDiagnostics::new();
    let t = RequestOutcome::Transport("Connection Timed Out".into());
    match after_attempt(&cfg, ResponseMode::Required, 3, &t, &mut diag) {
        RequestStep::Fail(SpireError::InternalError(m)) => assert_eq!(m, "PDG REST API timeout after 2500 ms"),
        _ => panic!("expected failure"),
    }
    let other = RequestOutcome::Transport("dns failure".into());
    match after_attempt(&cfg, ResponseMode::Required, 3, &other, &mut diag) {
        RequestStep::Fail(SpireError::InternalError(m)) => assert_eq!(m, "PDG REST transport error: dns failure"),
        _ => panic!("expected failure"),
    }
    assert_eq!(diag.last_error.as_deref(), Some("PDG REST transport error: dns failure"));
}

#[test]
fn network_queue_admission() {
    let cfg = NetworkThrottleConfig::default();
    let mut diag = NetworkDiagnostics::new();
    assert!(admit_request(&cfg, &mut diag, 3).is_ok());
    assert_eq!(diag.queue_depth_peak, 3);
    match admit_request(&cfg, &mut diag, 17) {
        Err(SpireError::InternalError(m)) => assert_eq!(m, "PDG REST queue depth 17 exceeded configured limit 16"),
        _ => panic!("expected refusal"),
    }
    assert_eq!(diag.queue_depth_peak, 17);
    diag.bump_peak(5);
    assert_eq!(diag.queue_depth_peak, 17);
    let snap = diag.snapshot();
    assert_eq!(snap.queue_depth_peak, 17);
    assert_eq!(snap.last_error, diag.last_error);
}

#[test]
fn hash_is_64_hex_chars() {
    let record = record_for_payload("{\"seed\":42}".to_string());
    assert_eq!(record.sha256.len(), 64);
    assert!(record.sha256.chars().all(|c| c.is_ascii_digit() || ('a'..='f').contains(&c)));
    assert!(verify_provenance(&record));
}

#[test]
fn sha256_known_digest() {
    let h = Sha256StateHasher;
    assert_eq!(h.algorithm(), "sha256");
    assert_eq!(h.hash_bytes(b"abc"), "ba7816bf8f01cfea414140de5dae2223b00361a396177a9cb410ff61f20015ad");
    let r = record_for_payload("abc".to_string());
    assert_eq!(r.sha256, "ba7816bf8f01cfea414140de5dae2223b00361a396177a9cb410ff61f20015ad");
}

#[test]
fn tampered_record_does_not_verify() {
    let mut record = record_for_payload("{\"seed\":7}".to_string());
    record.payload = "{\"seed\":8}".to_string();
    assert!(!verify_provenance(&record));
}

#[test]
fn format_block_contains_hash_and_payload() {
    let record = record_for_payload("{\"seed\":7,\"model\":{\"name\":\"m\"}}".to_string());
    let block = format_provenance_block(&record, "%", "", None).unwrap();
    assert!(block.contains("SPIRE PROVENANCE HASH:"));
    assert!(block.contains("BEGIN PROVENANCE PAYLOAD"));
    assert!(block.contains("END PROVENANCE PAYLOAD"));
    assert!(block.starts_with(&format!("% SPIRE PROVENANCE HASH: {}\n% SPIRE VERSION: 0.1.0\n", record.sha256)));
}

#[test]
fn provenance_block_lines_and_pdg() {
    let record = ProvenanceRecord { sha256: "abc".into(), payload: "{}".into() };
    let pdg = SessionPdgProvenance {
        edition: "2024".into(),
        release_timestamp: None,
        source_id: "pdg-api".into(),
        origin: None,
        source_path: None,
        extraction_policy: None,
        source_arbitration_outcome: None,
        local_file_fingerprint: Some("ff".into()),
        fingerprint: "f".into(),
    };
    let block = provenance_block(&record, "<!--", " -->", Some(&pdg), "{\n  \"a\": 1\r\n}");
    assert_eq!(
        block,
        "<!-- SPIRE PROVENANCE HASH: abc -->\n<!-- SPIRE VERSION: 0.1.0 -->\n<!-- PDG EDITION: 2024 -->\n<!-- PDG SOURCE ID: pdg-api -->\n<!-- PDG EXTRACTION POLICY: unspecified -->\n<!-- PDG LOCAL FINGERPRINT: ff -->\n<!-- BEGIN PROVENANCE PAYLOAD -->\n<!-- { -->\n<!--   \"a\": 1 -->\n<!-- } -->\n<!-- END PROVENANCE PAYLOAD -->\n"
    );
}

#[test]
fn parton_channels_default_to_all_pairs() {
    let ch = parton_channels(Hadron::Proton, Hadron::PionPlus, &[]);
    assert_eq!(ch.len(), 7 * 5);
    assert_eq!(ch[0], (PDG_U, PDG_U));
    assert_eq!(ch[1], (PDG_U, PDG_UBAR));
    assert_eq!(ch[5], (PDG_UBAR, PDG_U));
    assert_eq!(ch[34], (PDG_GLUON, PDG_GLUON));
}

#[test]
fn parton_channels_keep_given_list() {
    let given = [(PDG_GLUON, PDG_GLUON), (PDG_U, PDG_D)];
    assert_eq!(parton_channels(Hadron::Proton, Hadron::Proton, &given), given.to_vec());
}

#[test]
fn beam_description_names_both_beams() {
    assert_eq!(beam_description(Hadron::Proton, Hadron::AntiProton), "p p-bar → X");
    assert_eq!(beam_description(Hadron::PionPlus, Hadron::PionMinus), "pi+ pi- → X");
}

#[test]
fn single_field_row_is_rejected_with_its_line() {
    let layout = scan_numeric_table("x,y\n1,2\n5\n").unwrap();
    assert!(check_row_width(&layout.rows[0]).is_ok());
    match check_row_width(&layout.rows[1]) {
        Err(SpireError::DataParseError(m)) => assert_eq!(m, "Row 3 must contain at least x,y columns"),
        other => panic!("unexpected {:?}", other),
    }
}
