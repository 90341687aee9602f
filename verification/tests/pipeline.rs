//! The upload pipeline: selection, read, send, answer, and the display of
//! every state along the way.

use segmask::controller::process_response;
use segmask::controller::Controller;
use segmask::controller::Phase;
use segmask::error::UploadError;
use segmask::view::render;
use segmask::view::ResultPanel;
use segmask::view::SourcePanel;
use segmask::FileDetails;

fn png(name: &str) -> Vec<u8> {
    name.as_bytes().to_vec()
}

fn mask_details(data: Vec<u8>) -> FileDetails {
    FileDetails {
        file_name: png("mask.png"),
        file_type: png("image/png"),
        data,
    }
}

#[test]
fn read_fills_satellite_with_the_exact_bytes() {
    let mut c = Controller::new(png("http://svc"));
    assert_eq!(c.phase(), Phase::Idle);
    let name = png("a.png");
    let g = c.select_file(&name);
    assert_eq!(c.phase(), Phase::Reading);
    let bytes = vec![9u8, 8u8, 7u8, 6u8];
    c.finish_read(g, &name, &png("image/png"), Ok(bytes.clone()));
    assert_eq!(c.phase(), Phase::HasImage);
    let sat = c.satellite_image().as_ref().expect("satellite set");
    assert_eq!(sat.data, bytes);
    assert_eq!(sat.file_name, name);
    assert_eq!(sat.file_type, png("image/png"));
}

#[test]
fn begin_send_hands_out_the_image_and_waits() {
    let mut c = Controller::new(png("http://svc"));
    let name = png("a.png");
    let g = c.select_file(&name);
    c.finish_read(g, &name, &png("image/png"), Ok(vec![1u8, 2u8]));
    let req = c.begin_send().expect("a request to send");
    assert_eq!(req.data, vec![1u8, 2u8]);
    assert_eq!(req.file_name, name);
    assert_eq!(req.file_type, png("image/png"));
    assert_eq!(c.phase(), Phase::Sending);
    assert!(c.begin_send().is_none());
}

#[test]
fn good_answer_fills_the_mask() {
    let mut c = Controller::new(png("http://svc"));
    let name = png("a.png");
    let g = c.select_file(&name);
    c.finish_read(g, &name, &png("image/png"), Ok(vec![1u8]));
    c.begin_send().expect("a request to send");
    c.finish_send(g, Ok(mask_details(vec![0u8, 0u8, 0u8])));
    assert_eq!(c.phase(), Phase::HasMask);
    let m = c.mask_image().as_ref().expect("mask set");
    assert_eq!(m.data, vec![0u8, 0u8, 0u8]);
}

#[test]
fn stale_completion_never_overwrites_a_newer_selection() {
    let mut c = Controller::new(png("http://svc"));
    let old_name = png("old.png");
    let g1 = c.select_file(&old_name);
    c.finish_read(g1, &old_name, &png("image/png"), Ok(png("OLD")));
    c.begin_send().expect("a request to send");
    // A new file is selected while the old request is still outstanding.
    let new_name = png("new.png");
    let g2 = c.select_file(&new_name);
    assert_ne!(g1, g2);
    // The old request completes only now: it must be discarded.
    c.finish_send(g1, Ok(mask_details(png("STALE"))));
    assert!(c.mask_image().is_none());
    assert!(c.satellite_image().is_none());
    assert_eq!(c.phase(), Phase::Reading);
    // The new read completes; only the new selection is reflected.
    c.finish_read(g2, &new_name, &png("image/png"), Ok(png("NEW")));
    let sat = c.satellite_image().as_ref().expect("satellite set");
    assert_eq!(sat.data, png("NEW"));
    assert_eq!(sat.file_name, new_name);
    assert!(c.mask_image().is_none());
}

#[test]
fn stale_read_is_discarded_too() {
    let mut c = Controller::new(png("http://svc"));
    let old_name = png("old.png");
    let g1 = c.select_file(&old_name);
    let new_name = png("new.png");
    let g2 = c.select_file(&new_name);
    c.finish_read(g1, &old_name, &png("image/png"), Ok(png("OLD")));
    assert!(c.satellite_image().is_none());
    assert_eq!(c.phase(), Phase::Reading);
    c.finish_read(g2, &new_name, &png("image/png"), Ok(png("NEW")));
    assert_eq!(c.satellite_image().as_ref().expect("set").data, png("NEW"));
}

#[test]
fn server_error_status_moves_to_failed_and_keeps_the_image() {
    let mut c = Controller::new(png("http://svc"));
    let name = png("a.png");
    let g = c.select_file(&name);
    c.finish_read(g, &name, &png("image/png"), Ok(vec![5u8]));
    c.begin_send().expect("a request to send");
    let r = process_response(500, &png("internal error"));
    let e = r.expect_err("500 is a failure");
    assert_eq!(e.message(), b"server answered with status 500".to_vec());
    c.finish_send(g, Err(e));
    assert_eq!(c.phase(), Phase::Failed);
    let sat = c.satellite_image().as_ref().expect("satellite kept");
    assert_eq!(sat.data, vec![5u8]);
    let f = c.failure().as_ref().expect("failure recorded");
    assert!(!f.message().is_empty());
}

#[test]
fn malformed_answer_body_moves_to_failed() {
    let mut c = Controller::new(png("http://svc"));
    let name = png("a.png");
    let g = c.select_file(&name);
    c.finish_read(g, &name, &png("image/png"), Ok(vec![5u8]));
    c.begin_send().expect("a request to send");
    let r = process_response(200, &png("{ not json"));
    let e = r.expect_err("a malformed body is a failure");
    assert!(matches!(e, UploadError::Decode));
    c.finish_send(g, Err(e));
    assert_eq!(c.phase(), Phase::Failed);
    assert!(c.satellite_image().is_some());
    assert!(c.mask_image().is_none());
}

#[test]
fn read_failure_is_reported_not_fatal() {
    let mut c = Controller::new(png("http://svc"));
    let name = png("a.png");
    let g = c.select_file(&name);
    c.finish_read(g, &name, &png("image/png"), Err(png("permission denied")));
    assert_eq!(c.phase(), Phase::Failed);
    let f = c.failure().as_ref().expect("failure recorded");
    assert_eq!(
        f.message(),
        b"file read failed: permission denied".to_vec()
    );
}

#[test]
fn empty_read_is_reported_not_stored() {
    let mut c = Controller::new(png("http://svc"));
    let name = png("a.png");
    let g = c.select_file(&name);
    c.finish_read(g, &name, &png("image/png"), Ok(Vec::new()));
    assert_eq!(c.phase(), Phase::Failed);
    assert!(c.satellite_image().is_none());
    let f = c.failure().as_ref().expect("failure recorded");
    assert_eq!(
        f.message(),
        b"file read failed: the selected file was empty".to_vec()
    );
}

#[test]
fn transport_failure_message_keeps_the_cause() {
    let e = UploadError::Transport {
        detail: b"connection refused".to_vec(),
    };
    assert_eq!(
        e.message(),
        b"sending the image failed: connection refused".to_vec()
    );
}

#[test]
fn selecting_again_clears_both_slots_at_once() {
    let mut c = Controller::new(png("http://svc"));
    let name = png("a.png");
    let g = c.select_file(&name);
    c.finish_read(g, &name, &png("image/png"), Ok(vec![1u8]));
    c.begin_send().expect("a request to send");
    c.finish_send(g, Ok(mask_details(vec![2u8])));
    assert!(c.satellite_image().is_some() && c.mask_image().is_some());
    c.select_file(&png("b.png"));
    assert!(c.satellite_image().is_none());
    assert!(c.mask_image().is_none());
    assert!(c.failure().is_none());
    assert_eq!(c.phase(), Phase::Reading);
}

#[test]
fn pending_reads_keep_one_entry_per_name() {
    let mut c = Controller::new(png("http://svc"));
    let g1 = c.select_file(&png("same.png"));
    let g2 = c.select_file(&png("same.png"));
    assert_ne!(g1, g2);
    let pending = c.pending_reads();
    assert_eq!(pending.len(), 1);
    assert_eq!(pending[0].file_name, png("same.png"));
    assert_eq!(pending[0].generation, g2);
    let g3 = c.select_file(&png("other.png"));
    assert_eq!(c.pending_reads().len(), 2);
    // A completed read drops its own registration only.
    let mut c2 = c;
    c2.finish_read(g3, &png("other.png"), &png("image/png"), Ok(vec![1u8]));
    assert_eq!(c2.pending_reads().len(), 1);
    assert_eq!(c2.pending_reads()[0].file_name, png("same.png"));
}

#[test]
fn read_failure_renders_the_message_without_an_image() {
    let mut c = Controller::new(png("http://svc"));
    let name = png("a.png");
    let g = c.select_file(&name);
    c.finish_read(g, &name, &png("image/png"), Err(png("boom")));
    let r = render(&c);
    assert_eq!(r.source, SourcePanel::Empty);
    assert_eq!(
        r.result,
        ResultPanel::Message {
            text: b"file read failed: boom".to_vec(),
        }
    );
}

#[test]
fn rendering_twice_gives_identical_output() {
    let mut c = Controller::new(png("http://svc"));
    let name = png("a.png");
    let g = c.select_file(&name);
    c.finish_read(g, &name, &png("image/png"), Ok(vec![0u8, 0u8, 0u8]));
    c.begin_send().expect("a request to send");
    assert_eq!(render(&c), render(&c));
    c.finish_send(g, Ok(mask_details(vec![0u8, 0u8, 0u8])));
    assert_eq!(render(&c), render(&c));
}

#[test]
fn the_five_display_conditions() {
    let mut c = Controller::new(png("http://svc"));
    // Nothing selected.
    let r = render(&c);
    assert_eq!(r.source, SourcePanel::Empty);
    assert_eq!(r.result, ResultPanel::Empty);
    // Image present, mask outstanding.
    let name = png("a.png");
    let g = c.select_file(&name);
    c.finish_read(g, &name, &png("image/png"), Ok(vec![0u8, 0u8, 0u8]));
    let r = render(&c);
    assert_eq!(
        r.source,
        SourcePanel::Image {
            heading: png("a.png"),
            uri: b"data:image/png;base64,AAAA".to_vec(),
        }
    );
    assert_eq!(r.result, ResultPanel::Pending);
    c.begin_send().expect("a request to send");
    assert_eq!(render(&c).result, ResultPanel::Pending);
    // Mask present.
    c.finish_send(g, Ok(mask_details(vec![0u8, 0u8, 0u8])));
    let r = render(&c);
    assert_eq!(
        r.result,
        ResultPanel::Image {
            heading: png("mask.png"),
            uri: b"data:image/png;base64,AAAA".to_vec(),
        }
    );
    // Failure.
    let name2 = png("b.png");
    let g2 = c.select_file(&name2);
    c.finish_read(g2, &name2, &png("image/png"), Ok(vec![1u8]));
    c.begin_send().expect("a request to send");
    c.finish_send(g2, Err(UploadError::Status { code: 502 }));
    let r = render(&c);
    assert!(matches!(r.source, SourcePanel::Image { .. }));
    assert_eq!(
        r.result,
        ResultPanel::Message {
            text: b"server answered with status 502".to_vec(),
        }
    );
}
