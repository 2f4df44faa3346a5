use std::io::Read;

use base64::Engine;
use base64::engine::general_purpose::STANDARD as BASE64_STANDARD;
use image::ImageEncoder;
use serde_json::Value;
use spine_host::capped_writer::{CappedWriteError, CappedWriter};
use spine_host::debug_bundle::{
    admit_attachment, admit_written, is_source_capture_resource_exhaustion, manifest_parent, manifest_source,
    reopen_rollout_source, snapshot_rollout_source, validate_subtree_thread_count, BundleBuildError,
    BundleBuildLimits, BundleBuilder, CapturedFileSnapshot, CapturedSource, CapturedThread,
    ManifestParent, ManifestSource, Platform, RolloutCaptures, RolloutDebugManifest,
    RolloutSourceIdentity, SourceProbe, SourceReadFailure, SourceResource, MANIFEST_RECORD_TYPE,
    MAX_PACKAGE_SOURCE_BYTES, MAX_PACKAGE_SOURCE_RECORDS, MAX_SOURCE_LINE_BYTES,
    ROLLOUT_DEBUG_CONTENT_TYPE, ROLLOUT_DEBUG_SCHEMA, THREAD_RECORD_TYPE,
};
use spine_host::debug_record::DebugRolloutRecord;
use spine_host::feedback::{
    assemble_attachments, check_request, check_root_thread, map_bundle_error,
    normalize_subtree_thread_ids, note_active_parent, note_stored_children, rollout_limit,
    spine_feedback_enabled_by, stage_failure, upload_result_to_response, FeedbackErrorKind,
    FeedbackStage, RootThread,
};
use spine_host::redactor::{RolloutDebugRedactorError, SpineCarriers};
use spine_host::rollout::{ContentKind, EventMsg, JsonScan, ResponseItem, RolloutItem};
use spine_host::screenshots::{
    admit_encoding, admit_header, admit_input, admit_pixels, normalize_screenshot,
    normalize_screenshots, validate_screenshot_dimensions, FeedbackAttachment, PngFailure,
    PngHeader, SpineFeedbackScreenshot, MAX_SCREENSHOTS, MAX_SCREENSHOT_BASE64_BYTES,
    MAX_SCREENSHOT_BYTES, MAX_SCREENSHOT_DECODE_ALLOC_BYTES, MAX_SCREENSHOT_SIDE,
};
use spine_host::source_lines::{BoundedLineReader, BoundedSourceLine, LineStep};
use spine_host::text_map::TextMap;

fn carriers() -> SpineCarriers {
    SpineCarriers {
        open: String::from("open"),
        close: String::from("close"),
        next: String::from("next"),
        receipt_schema: String::from("receipt"),
        child_input_bytes: 80,
    }
}

fn snapshot_of(bytes: u64) -> CapturedFileSnapshot {
    let probe = SourceProbe::Opened {
        regular: true,
        bytes,
        identity: Some(RolloutSourceIdentity { device: 1, inode: 2 }),
    };
    match snapshot_rollout_source(probe).expect("capture rollout source") {
        CapturedSource::Ready(snapshot) => snapshot,
        other => panic!("expected captured source, got {other:?}"),
    }
}

fn text(value: &str) -> Value {
    Value::String(String::from(value))
}

fn object(entries: Vec<(&str, Value)>) -> Value {
    let mut map = serde_json::Map::new();
    for (key, value) in entries {
        map.insert(String::from(key), value);
    }
    Value::Object(map)
}

fn encoded_manifest(manifest: &RolloutDebugManifest) -> Vec<u8> {
    let value = object(vec![
        ("record_type", text(MANIFEST_RECORD_TYPE)),
        ("schema", text(ROLLOUT_DEBUG_SCHEMA)),
        ("build", text(&manifest.build)),
        ("root_thread_local_id", Value::from(manifest.root_thread_local_id)),
        ("thread_count", Value::from(manifest.thread_count)),
        ("threads", text(&format!("{:?}", manifest.threads))),
    ]);
    serde_json::to_vec(&value).expect("encode manifest")
}

fn nodes(value: &Value) -> usize {
    match value {
        Value::Array(items) => 1 + items.iter().map(nodes).sum::<usize>(),
        Value::Object(fields) => {
            1 + fields.iter().map(|(_, value)| 1 + nodes(value)).sum::<usize>()
        }
        _ => 1,
    }
}

fn scan(line: &[u8]) -> JsonScan {
    match serde_json::from_slice::<Value>(line) {
        Ok(value) => JsonScan { nodes: nodes(&value), well_formed: true },
        Err(_) => JsonScan { nodes: 1, well_formed: false },
    }
}

fn lines_in_pieces(source: &[u8], captured: u64, limit: usize, piece: usize) -> Vec<BoundedSourceLine> {
    let mut reader = BoundedLineReader::new(captured, limit);
    let mut at = 0;
    let mut lines = Vec::new();
    loop {
        let end = (at + piece).min(source.len());
        match reader.offer(&source[at..end]) {
            LineStep::More { consumed } => at += consumed,
            LineStep::Line { consumed, line } => {
                at += consumed;
                lines.push(line);
            }
            LineStep::End => return lines,
        }
    }
}

fn bundle(
    thread_id: &str,
    source: &[u8],
    decoded: &Option<RolloutItem>,
    limits: BundleBuildLimits,
) -> Result<Vec<u8>, BundleBuildError> {
    let captures = vec![CapturedThread {
        thread_id: String::from(thread_id),
        source: CapturedSource::Ready(snapshot_of(source.len() as u64)),
    }];
    let (mut builder, manifest) =
        BundleBuilder::begin(thread_id, &captures, &TextMap::new(), limits, carriers(), "1.0")?;
    builder.write_json_line(&encoded_manifest(&manifest))?;
    builder.open_source(0);
    for line in lines_in_pieces(source, source.len() as u64, builder.source_line_bytes(), 7) {
        let scanned = match &line {
            BoundedSourceLine::Retained(bytes) => scan(bytes),
            BoundedSourceLine::Oversized => JsonScan { nodes: 0, well_formed: false },
        };
        let record = builder.record(&line, scanned, decoded)?;
        let value = object(vec![
            ("record_type", text(THREAD_RECORD_TYPE)),
            ("thread_local_id", Value::from(record.thread_local_id)),
            ("ordinal", Value::from(record.ordinal)),
            ("item", text(&format!("{:?}", record.item))),
        ]);
        builder.write_json_line(&serde_json::to_vec(&value).expect("encode record"))?;
    }
    builder.close_source(0)?;
    builder.finish()
}

fn gunzipped(bytes: &[u8]) -> String {
    let mut decoded = String::new();
    flate2::read::GzDecoder::new(bytes)
        .read_to_string(&mut decoded)
        .expect("decode redacted bundle");
    decoded
}

#[test]
fn feedback_capability_requires_a_spine_feature() {
    assert!(!spine_feedback_enabled_by(false, false));
    assert!(spine_feedback_enabled_by(false, true));
}

#[test]
fn subtree_ids_are_root_first_deduplicated_and_stable() {
    let root = "67e55044-10b1-426f-9247-bb680e5fe0c8";
    let child_a = "01936f4e-0000-7000-8000-000000000001";
    let child_b = "f1936f4e-0000-7000-8000-000000000002";
    let ids = [child_b, root, child_a, child_b].map(String::from).to_vec();
    let normalized = normalize_subtree_thread_ids(root, &ids);
    assert_eq!(normalized.first().map(String::as_str), Some(root));
    assert_eq!(normalized.len(), 3);
    assert!(normalized[1..].windows(2).all(|ids| ids[0] < ids[1]));
    assert_eq!(normalized[1], child_a);
}

#[test]
fn bundle_redacts_content_and_thread_identity() {
    let thread_id = "67e55044-10b1-426f-9247-bb680e5fe0c8";
    let payload = object(vec![
        ("type", text("message")),
        ("role", text("user")),
        (
            "content",
            Value::Array(vec![object(vec![
                ("type", text("input_text")),
                ("text", text("private prompt")),
            ])]),
        ),
        ("thread_id", text(thread_id)),
    ]);
    let record = object(vec![
        ("timestamp", text("2026-08-08T00:00:00Z")),
        ("type", text("response_item")),
        ("payload", payload),
    ]);
    let source = format!("{record}\n");
    let decoded = Some(RolloutItem::ResponseItem(ResponseItem::Message {
        id: None,
        role: String::from("user"),
        content: vec![ContentKind::InputText],
        phase: None,
        turn_id: None,
    }));
    let bytes = bundle(
        thread_id,
        source.as_bytes(),
        &decoded,
        BundleBuildLimits::production(128 * 1024),
    )
    .expect("build redacted bundle");
    let decoded = gunzipped(&bytes);
    assert!(decoded.contains("spine.rollout_debug.v1"));
    assert!(!decoded.contains("private prompt"));
    assert!(!decoded.contains(thread_id));
    assert!(decoded.contains("InputText"));
    assert_eq!(decoded.lines().count(), 2);
}

#[test]
fn screenshots_reject_non_png_and_zero_dimensions() {
    let invalid = SpineFeedbackScreenshot {
        png_base64: BASE64_STANDARD.encode(b"not png"),
    };
    let error = normalize_screenshots(&vec![invalid]).expect_err("not a PNG");
    assert_eq!(error, "screenshot 1 is not a PNG image");
    assert!(validate_screenshot_dimensions(0, (0, 1)).is_err());
    assert!(validate_screenshot_dimensions(0, (1, 1)).is_ok());
}

#[test]
fn capped_writer_never_publishes_a_partial_overflowing_write() {
    let mut writer = CappedWriter::new(4);
    assert_eq!(writer.write(b"1234"), Ok(4));
    assert!(!writer.exceeded());
    let error = writer.write(b"5").expect_err("over the limit");
    assert_eq!(error, CappedWriteError::LimitExceeded);
    assert!(writer.exceeded());
    assert_eq!(writer.write(b""), Ok(0));
    assert!(writer.exceeded());
    assert_eq!(writer.into_inner(), b"1234");
    assert_eq!(error.message(), "rollout debug attachment limit exceeded");
    assert_eq!(
        CappedWriteError::SizeOverflow.message(),
        "rollout debug attachment size overflow"
    );
}

#[test]
fn bundle_limits_fail_closed_before_returning_partial_output() {
    let thread_id = "67e55044-10b1-426f-9247-bb680e5fe0c8";
    let source = b"{\"type\":\"event_msg\"}\n";

    let output_error = bundle(
        thread_id,
        source,
        &None,
        BundleBuildLimits {
            output_bytes: 1,
            source_line_bytes: MAX_SOURCE_LINE_BYTES,
            source_bytes: MAX_PACKAGE_SOURCE_BYTES,
            source_records: MAX_PACKAGE_SOURCE_RECORDS,
        },
    )
    .expect_err("one byte cannot hold a complete gzip bundle");
    assert!(matches!(
        output_error,
        BundleBuildError::AttachmentTooLarge { limit: 1 }
    ));

    let source_error = bundle(
        thread_id,
        source,
        &None,
        BundleBuildLimits {
            output_bytes: 128 * 1024,
            source_line_bytes: MAX_SOURCE_LINE_BYTES,
            source_bytes: 1,
            source_records: MAX_PACKAGE_SOURCE_RECORDS,
        },
    )
    .expect_err("captured source must respect the package work limit");
    assert!(matches!(
        source_error,
        BundleBuildError::SourceWorkLimitExceeded {
            resource: SourceResource::CapturedBytes,
            limit: 1,
        }
    ));
    assert_eq!(SourceResource::CapturedBytes.name(), "captured bytes");
}

#[test]
fn screenshot_limits_are_checked_before_decode_allocation() {
    let screenshots = (0..=MAX_SCREENSHOTS)
        .map(|_| SpineFeedbackScreenshot {
            png_base64: String::new(),
        })
        .collect();
    assert_eq!(
        normalize_screenshots(&screenshots).expect_err("too many"),
        "Spine feedback accepts at most 3 screenshots"
    );
    assert_eq!(
        validate_screenshot_dimensions(0, (MAX_SCREENSHOT_SIDE, MAX_SCREENSHOT_SIDE)),
        Err(String::from("screenshot 1 exceeds 16000000 pixels"))
    );
}

fn png(width: u32, height: u32, color: image::ExtendedColorType, pixels: &[u8]) -> Vec<u8> {
    let mut output = Vec::new();
    image::codecs::png::PngEncoder::new(&mut output)
        .write_image(pixels, width, height, color)
        .expect("encode a test image");
    output
}

fn screenshot(bytes: &[u8]) -> SpineFeedbackScreenshot {
    SpineFeedbackScreenshot {
        png_base64: BASE64_STANDARD.encode(bytes),
    }
}

#[test]
fn a_screenshot_comes_out_as_a_plain_rgba_image() {
    let source = png(2, 1, image::ExtendedColorType::Rgb8, &[1, 2, 3, 4, 5, 6]);
    let attachments =
        normalize_screenshots(&vec![screenshot(&source), screenshot(&source)]).expect("normalize");
    assert_eq!(attachments.len(), 2);
    assert_eq!(attachments[0].filename, "screenshot-1.png");
    assert_eq!(attachments[1].filename, "screenshot-2.png");
    assert_eq!(attachments[0].content_type.as_deref(), Some("image/png"));
    assert_ne!(attachments[0].buffer, source);
    assert_eq!(
        attachments[0].buffer,
        png(2, 1, image::ExtendedColorType::Rgba8, &[1, 2, 3, 255, 4, 5, 6, 255])
    );
    assert_eq!(attachments[0].buffer, attachments[1].buffer);
}

#[test]
fn a_screenshot_that_is_no_image_is_refused() {
    let invalid = SpineFeedbackScreenshot {
        png_base64: String::from("%%%"),
    };
    assert_eq!(
        normalize_screenshot(1, &invalid),
        Err(String::from("screenshot 2 is not valid base64"))
    );
    let truncated = screenshot(&[0x89, 0x50, 0x4e, 0x47, 0x0d, 0x0a, 0x1a, 0x0a, 0]);
    assert_eq!(
        normalize_screenshot(0, &truncated),
        Err(String::from("screenshot 1 is not a valid PNG image"))
    );
    let mut cut = png(2, 1, image::ExtendedColorType::Rgb8, &[1, 2, 3, 4, 5, 6]);
    cut.truncate(40);
    assert_eq!(
        normalize_screenshot(0, &screenshot(&cut)),
        Err(String::from("screenshot 1 is not a valid PNG image"))
    );
    let wide = png(
        MAX_SCREENSHOT_SIDE + 1,
        1,
        image::ExtendedColorType::L8,
        &vec![0; MAX_SCREENSHOT_SIDE as usize + 1],
    );
    assert!(normalize_screenshot(0, &screenshot(&wide)).is_err());
    let endless = SpineFeedbackScreenshot {
        png_base64: "A".repeat(MAX_SCREENSHOT_BASE64_BYTES + 1),
    };
    assert_eq!(
        normalize_screenshot(0, &endless),
        Err(String::from("screenshot 1 is too large"))
    );
}

#[test]
fn each_stage_of_a_screenshot_has_its_complaint() {
    assert_eq!(
        admit_input(2, 10, Some(vec![0; MAX_SCREENSHOT_BYTES + 1])),
        Err(String::from("screenshot 3 is too large"))
    );
    let fits = PngHeader { width: 4, height: 4, total_bytes: 64 };
    assert_eq!(
        admit_header(0, Some(fits)),
        Ok((fits, MAX_SCREENSHOT_DECODE_ALLOC_BYTES - 64))
    );
    assert_eq!(
        admit_header(0, Some(PngHeader { width: 0, ..fits })),
        Err(String::from("screenshot 1 has zero dimensions"))
    );
    assert_eq!(
        admit_header(0, Some(PngHeader { height: MAX_SCREENSHOT_SIDE + 1, ..fits })),
        Err(String::from("screenshot 1 exceeds 8192 pixels per side"))
    );
    assert_eq!(
        admit_header(
            0,
            Some(PngHeader { total_bytes: MAX_SCREENSHOT_DECODE_ALLOC_BYTES + 1, ..fits })
        ),
        Err(String::from("screenshot 1 requires too much decode memory"))
    );
    assert_eq!(
        admit_header(0, None),
        Err(String::from("screenshot 1 is not a valid PNG image"))
    );
    assert_eq!(
        admit_pixels(0, Err(PngFailure::Limits)),
        Err(String::from("screenshot 1 exceeds decode limits"))
    );
    assert_eq!(
        admit_pixels(0, Err(PngFailure::Invalid)),
        Err(String::from("screenshot 1 is not a valid PNG image"))
    );
    assert_eq!(
        admit_encoding(0, None, 3),
        Err(String::from("screenshot 1 could not be normalized"))
    );
    assert_eq!(
        admit_encoding(0, Some(vec![1, 2, 3, 4]), 3),
        Err(String::from("normalized screenshot 1 exceeds 3 bytes"))
    );
    assert_eq!(admit_encoding(0, Some(vec![1, 2, 3]), 3), Ok(vec![1, 2, 3]));
}

#[test]
fn lines_do_not_depend_on_how_the_source_is_read() {
    let source = b"one\ntwo two\n\nlast";
    let whole = lines_in_pieces(source, 17, 5, 100);
    assert_eq!(
        whole,
        vec![
            BoundedSourceLine::Retained(b"one\n".to_vec()),
            BoundedSourceLine::Oversized,
            BoundedSourceLine::Retained(b"\n".to_vec()),
            BoundedSourceLine::Retained(b"last".to_vec()),
        ]
    );
    for piece in 1..17 {
        assert_eq!(lines_in_pieces(source, 17, 5, piece), whole);
    }
}

#[test]
fn a_source_is_read_up_to_its_captured_boundary() {
    let source = b"one\ntwo\n";
    assert_eq!(
        lines_in_pieces(source, 6, 10, 100),
        vec![
            BoundedSourceLine::Retained(b"one\n".to_vec()),
            BoundedSourceLine::Retained(b"tw".to_vec()),
        ]
    );
    assert_eq!(lines_in_pieces(source, 0, 10, 100), vec![]);

    let mut reader = BoundedLineReader::new(10, 10);
    assert_eq!(
        reader.offer(b"ab"),
        LineStep::More { consumed: 2 }
    );
    assert_eq!(
        reader.offer(b""),
        LineStep::Line { consumed: 0, line: BoundedSourceLine::Retained(b"ab".to_vec()) }
    );
    assert_eq!(reader.offer(b""), LineStep::End);
    assert_eq!(reader.remaining(), 8);
}

#[test]
fn a_source_that_was_not_read_to_its_end_is_refused() {
    let captures = vec![CapturedThread {
        thread_id: String::from("a"),
        source: CapturedSource::Ready(snapshot_of(3)),
    }];
    let (builder, _) = BundleBuilder::begin(
        "a",
        &captures,
        &TextMap::new(),
        BundleBuildLimits::production(1000),
        carriers(),
        "1.0",
    )
    .unwrap_or_else(|error| panic!("{error:?}"));
    let error = builder.close_source(1).expect_err("one byte is missing");
    assert_eq!(
        error,
        BundleBuildError::SourceRead(SourceReadFailure::ChangedBeforeBoundary)
    );
    assert_eq!(error.message(), "failed to read captured rollout source");
}

#[test]
fn a_manifest_numbers_threads_and_names_their_parents() {
    let ready = CapturedSource::Ready(snapshot_of(5));
    let capture = |id: &str, source: CapturedSource| CapturedThread {
        thread_id: String::from(id),
        source,
    };
    let captures = vec![
        capture("root", ready),
        capture("child", CapturedSource::Missing),
        capture("stray", CapturedSource::FlushFailed),
        capture("orphan", CapturedSource::Unavailable),
        capture("child", CapturedSource::Unreadable),
    ];
    let mut parents = TextMap::new();
    note_active_parent(&mut parents, "child", Some(String::from("root")));
    note_active_parent(&mut parents, "stray", Some(String::from("elsewhere")));
    note_active_parent(&mut parents, "orphan", None);
    let (_, manifest) = BundleBuilder::begin(
        "root",
        &captures,
        &parents,
        BundleBuildLimits::production(1000),
        carriers(),
        "1.0",
    )
    .unwrap_or_else(|error| panic!("{error:?}"));
    assert_eq!(manifest.build, "1.0");
    assert_eq!(manifest.root_thread_local_id, 0);
    assert_eq!(manifest.thread_count, 5);
    let ids: Vec<u64> = manifest.threads.iter().map(|thread| thread.thread_local_id).collect();
    assert_eq!(ids, vec![0, 1, 2, 3, 1]);
    let parents: Vec<ManifestParent> =
        manifest.threads.iter().map(|thread| thread.parent).collect();
    assert_eq!(
        parents,
        vec![
            ManifestParent::Root,
            ManifestParent::Known { thread_local_id: 0 },
            ManifestParent::OutsideSnapshot,
            ManifestParent::Unknown,
            ManifestParent::Known { thread_local_id: 0 },
        ]
    );
    let sources: Vec<ManifestSource> =
        manifest.threads.iter().map(|thread| thread.source).collect();
    assert_eq!(
        sources,
        vec![
            ManifestSource::Ready { captured_bytes: 5 },
            ManifestSource::Missing,
            ManifestSource::FlushFailed,
            ManifestSource::Unavailable,
            ManifestSource::Unreadable,
        ]
    );
    assert_eq!(manifest_source(&CapturedSource::Missing), ManifestSource::Missing);
    assert_eq!(
        manifest_parent("root", "root", &TextMap::new(), &TextMap::new()),
        ManifestParent::Root
    );
}

#[test]
fn stored_children_do_not_replace_known_parents() {
    let thread_ids = ["root", "a", "b"].map(String::from).to_vec();
    let mut parents = TextMap::new();
    note_active_parent(&mut parents, "a", Some(String::from("live")));
    note_stored_children(
        &mut parents,
        &thread_ids,
        "root",
        &["a", "b", "outside"].map(String::from).to_vec(),
    );
    note_stored_children(&mut parents, &thread_ids, "a", &vec![String::from("b")]);
    assert_eq!(parents.get("a").map(String::as_str), Some("live"));
    assert_eq!(parents.get("b").map(String::as_str), Some("root"));
    assert_eq!(parents.get("outside"), None);
}

#[test]
fn records_are_numbered_and_limited() {
    let captures = vec![CapturedThread {
        thread_id: String::from("a"),
        source: CapturedSource::Ready(snapshot_of(3)),
    }];
    let limits = BundleBuildLimits {
        source_records: 2,
        ..BundleBuildLimits::production(1000)
    };
    let (mut builder, _) =
        BundleBuilder::begin("a", &captures, &TextMap::new(), limits, carriers(), "1.0")
            .unwrap_or_else(|error| panic!("{error:?}"));
    builder.open_source(0);
    let none = JsonScan { nodes: 0, well_formed: false };
    let first = builder
        .record(&BoundedSourceLine::Oversized, none, &None)
        .unwrap_or_else(|error| panic!("{error:?}"));
    assert_eq!((first.thread_local_id, first.ordinal), (0, 0));
    assert_eq!(first.item, DebugRolloutRecord::OversizedRedacted);
    let second = builder
        .record(&BoundedSourceLine::Oversized, none, &None)
        .unwrap_or_else(|error| panic!("{error:?}"));
    assert_eq!(second.ordinal, 1);
    let error = builder
        .record(&BoundedSourceLine::Oversized, none, &None)
        .expect_err("a third record");
    assert_eq!(
        error,
        BundleBuildError::SourceWorkLimitExceeded { resource: SourceResource::Records, limit: 2 }
    );
    assert_eq!(error.message(), "rollout debug source records exceeds package limit 2");
}

#[test]
fn a_redaction_failure_ends_the_bundle() {
    let captures = vec![CapturedThread {
        thread_id: String::from("a"),
        source: CapturedSource::Ready(snapshot_of(3)),
    }];
    let (mut builder, _) = BundleBuilder::begin(
        "a",
        &captures,
        &TextMap::new(),
        BundleBuildLimits::production(1000),
        carriers(),
        "1.0",
    )
    .unwrap_or_else(|error| panic!("{error:?}"));
    builder.open_source(0);
    let huge = JsonScan { nodes: usize::MAX, well_formed: true };
    let line = BoundedSourceLine::Retained(b"{}".to_vec());
    let decoded = Some(RolloutItem::EventMsg(EventMsg::Error));
    let error = builder.record(&line, huge, &decoded).expect_err("over the node budget");
    assert_eq!(
        error,
        BundleBuildError::Redaction(RolloutDebugRedactorError::ResourceLimitExceeded)
    );
    assert_eq!(error.message(), "rollout debug redaction state limit exceeded");
}

#[test]
fn a_bundle_is_refused_while_it_is_written() {
    let captures = vec![CapturedThread {
        thread_id: String::from("a"),
        source: CapturedSource::Ready(snapshot_of(3)),
    }];
    let (mut builder, _) = BundleBuilder::begin(
        "a",
        &captures,
        &TextMap::new(),
        BundleBuildLimits::production(1000),
        carriers(),
        "1.0",
    )
    .unwrap_or_else(|error| panic!("{error:?}"));
    let mut word: u32 = 1;
    let noise: Vec<u8> = (0..1_000_000)
        .map(|_| {
            word ^= word << 13;
            word ^= word >> 17;
            word ^= word << 5;
            word as u8
        })
        .collect();
    assert_eq!(
        builder.write_json_line(&noise),
        Err(BundleBuildError::AttachmentTooLarge { limit: 1000 })
    );
    assert_eq!(admit_written(Some(1000), 1000, BundleBuildError::Encoding), Ok(()));
    assert_eq!(
        admit_written(Some(1001), 1000, BundleBuildError::Encoding),
        Err(BundleBuildError::AttachmentTooLarge { limit: 1000 })
    );
    assert_eq!(
        admit_written(None, 1000, BundleBuildError::Serialization),
        Err(BundleBuildError::Serialization)
    );
}

#[test]
fn attachments_are_taken_whole_or_not_at_all() {
    assert_eq!(admit_attachment(Some(vec![1, 2]), 2), Ok(vec![1, 2]));
    assert_eq!(
        admit_attachment(Some(vec![1, 2]), 1),
        Err(BundleBuildError::AttachmentTooLarge { limit: 1 })
    );
    assert_eq!(admit_attachment(None, 1), Err(BundleBuildError::Encoding));
}

#[test]
fn captures_are_limited_together() {
    let mut captures = RolloutCaptures::new(10);
    assert_eq!(
        captures.capture(String::from("a"), CapturedSource::Ready(snapshot_of(6))),
        Ok(())
    );
    assert_eq!(captures.capture(String::from("b"), CapturedSource::Missing), Ok(()));
    let error = captures
        .capture(String::from("c"), CapturedSource::Ready(snapshot_of(5)))
        .expect_err("over the limit");
    assert_eq!(
        error.message(),
        "rollout debug source captured bytes exceeds package limit 10"
    );
    assert_eq!(
        captures.capture(String::from("d"), CapturedSource::Ready(snapshot_of(u64::MAX))),
        Err(error)
    );
    assert_eq!(captures.into_captures().len(), 2);
}

#[test]
fn a_source_is_captured_by_what_its_file_answers() {
    assert_eq!(
        snapshot_rollout_source(SourceProbe::NotFound),
        Ok(CapturedSource::Missing)
    );
    assert_eq!(
        snapshot_rollout_source(SourceProbe::Exhausted),
        Err(BundleBuildError::SourceCaptureResourceExhausted)
    );
    assert_eq!(
        snapshot_rollout_source(SourceProbe::Failed),
        Ok(CapturedSource::Unreadable)
    );
    let directory = SourceProbe::Opened { regular: false, bytes: 0, identity: None };
    assert_eq!(
        snapshot_rollout_source(directory),
        Ok(CapturedSource::Unreadable)
    );
    let nameless = SourceProbe::Opened { regular: true, bytes: 0, identity: None };
    assert_eq!(
        snapshot_rollout_source(nameless),
        Err(BundleBuildError::SourceIdentityUnavailable)
    );
}

#[test]
fn a_captured_source_is_opened_again_only_as_itself() {
    let snapshot = snapshot_of(10);
    let opened = |regular, bytes, inode| SourceProbe::Opened {
        regular,
        bytes,
        identity: Some(RolloutSourceIdentity { device: 1, inode }),
    };
    assert_eq!(reopen_rollout_source(&snapshot, opened(true, 12, 2)), Ok(()));
    let failure = |probe| match reopen_rollout_source(&snapshot, probe) {
        Err(BundleBuildError::SourceRead(failure)) => failure.message(),
        other => panic!("expected a read failure, got {other:?}"),
    };
    assert_eq!(
        failure(opened(false, 12, 2)),
        "captured rollout source is no longer a regular file"
    );
    assert_eq!(failure(opened(true, 12, 3)), "captured rollout source identity changed");
    assert_eq!(failure(opened(true, 9, 2)), "captured rollout source shrank");
    assert_eq!(failure(SourceProbe::NotFound), "rollout source could not be read");
}

#[test]
fn exhaustion_is_told_by_kind_and_number() {
    assert!(is_source_capture_resource_exhaustion(true, None, Platform::Other));
    for number in [12, 23, 24] {
        assert!(is_source_capture_resource_exhaustion(false, Some(number), Platform::Unix));
        assert!(!is_source_capture_resource_exhaustion(false, Some(number), Platform::Other));
    }
    for number in [4, 8, 14] {
        assert!(is_source_capture_resource_exhaustion(false, Some(number), Platform::Windows));
        assert!(!is_source_capture_resource_exhaustion(false, Some(number), Platform::Unix));
    }
    assert!(!is_source_capture_resource_exhaustion(false, None, Platform::Unix));
}

#[test]
fn a_subtree_has_a_largest_size() {
    assert_eq!(validate_subtree_thread_count(131_072), Ok(()));
    let error = validate_subtree_thread_count(131_073).expect_err("one thread too many");
    assert_eq!(
        error.message(),
        "rollout debug source thread identifiers exceeds package limit 131072"
    );
}

#[test]
fn requests_are_checked_in_order() {
    let disabled = check_request(false, Some("note"), 1).expect_err("disabled");
    assert_eq!(disabled.kind, FeedbackErrorKind::InvalidRequest);
    assert_eq!(disabled.message, "sending feedback is disabled by configuration");
    let long = check_request(true, Some("\u{e9}\u{e9}"), 3).expect_err("too long");
    assert_eq!(long.message, "Spine feedback note exceeds 3 bytes");
    assert_eq!(check_request(true, Some("\u{e9}\u{e9}"), 4), Ok(()));
    assert_eq!(check_request(true, None, 0), Ok(()));

    let message = |root| match check_root_thread(&root) {
        Err(error) => error.message,
        Ok(()) => String::from("accepted"),
    };
    assert_eq!(
        message(RootThread::InvalidId(String::from("too short"))),
        "invalid thread id: too short"
    );
    assert_eq!(
        message(RootThread::Inactive),
        "Spine feedback requires an active thread"
    );
    assert_eq!(
        message(RootThread::Active { spine_jit: false, spine_spawn: false }),
        "feedback/spineUpload requires a Spine-enabled thread"
    );
    assert_eq!(
        message(RootThread::Active { spine_jit: true, spine_spawn: false }),
        "accepted"
    );
}

fn attachment(bytes: usize) -> FeedbackAttachment {
    FeedbackAttachment {
        filename: String::from("screenshot-1.png"),
        content_type: None,
        buffer: vec![0; bytes],
    }
}

#[test]
fn screenshots_and_rollout_share_one_limit() {
    assert_eq!(rollout_limit(10, &vec![attachment(3), attachment(4)]), Ok(3));
    assert_eq!(rollout_limit(7, &vec![attachment(3), attachment(4)]), Ok(0));
    assert_eq!(
        rollout_limit(6, &vec![attachment(3), attachment(4)]).expect_err("too large").message,
        "Spine feedback screenshots exceed the attachment limit"
    );
    let attachments = assemble_attachments("rollout.gz", vec![1, 2], vec![attachment(3)]);
    assert_eq!(attachments.len(), 2);
    assert_eq!(attachments[0].filename, "rollout.gz");
    assert_eq!(
        attachments[0].content_type.as_deref(),
        Some(ROLLOUT_DEBUG_CONTENT_TYPE)
    );
    assert_eq!(attachments[0].buffer, vec![1, 2]);
    assert_eq!(attachments[1].filename, "screenshot-1.png");
}

#[test]
fn only_limits_are_the_fault_of_a_request() {
    let limit = map_bundle_error(BundleBuildError::AttachmentTooLarge { limit: 5 });
    assert_eq!(limit.kind, FeedbackErrorKind::InvalidRequest);
    assert_eq!(limit.message, "rollout debug attachment exceeds 5 bytes");
    let work = map_bundle_error(BundleBuildError::SourceWorkLimitExceeded {
        resource: SourceResource::Records,
        limit: 1,
    });
    assert_eq!(work.kind, FeedbackErrorKind::InvalidRequest);
    for (error, message) in [
        (BundleBuildError::Encoding, "failed to encode rollout debug attachment"),
        (BundleBuildError::Serialization, "failed to serialize rollout debug record"),
        (
            BundleBuildError::SourceCaptureResourceExhausted,
            "rollout source capture exhausted process resources",
        ),
        (
            BundleBuildError::SourceIdentityUnavailable,
            "stable rollout source identity is unavailable",
        ),
    ] {
        let mapped = map_bundle_error(error);
        assert_eq!(mapped.kind, FeedbackErrorKind::Internal);
        assert_eq!(mapped.message, message);
    }
}

#[test]
fn an_upload_is_answered_with_its_report() {
    let response = upload_result_to_response(Ok(String::from("r-1"))).expect("sent");
    assert_eq!(response.report_id, "r-1");
    let error = upload_result_to_response(Err(String::from("offline"))).expect_err("not sent");
    assert_eq!(error.kind, FeedbackErrorKind::Internal);
    assert_eq!(error.message, "failed to upload Spine feedback: offline");
    assert_eq!(
        stage_failure(FeedbackStage::Subtree, "gone").message,
        "failed to snapshot Spine thread subtree: gone"
    );
    assert_eq!(
        stage_failure(FeedbackStage::Screenshots, "panic").message,
        "failed to validate screenshots: panic"
    );
    assert_eq!(
        stage_failure(FeedbackStage::Attachment, "panic").message,
        "failed to build rollout debug attachment: panic"
    );
}
