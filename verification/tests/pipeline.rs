use rapidraw_cli::masks::{MaskDefinition, SubMask};
use rapidraw_cli::pipeline::{lut_warning, Event, Phase, Pipeline, Request};
use rapidraw_cli::timing::{report, Timing};

fn request(resize: Option<u32>) -> Request {
    Request {
        input: "in.nef".to_string(),
        preset: "p.rrdata".to_string(),
        output: "out.jpg".to_string(),
        quality: 80,
        resize,
    }
}

fn preset(lut: Option<&str>) -> Event {
    Event::Preset { lut_path: lut.map(String::from) }
}

fn transformed() -> Event {
    Event::Transformed { width: 600, height: 400, masks: vec![] }
}

fn failed(reason: &str) -> Event {
    Event::Failed(reason.to_string())
}

/// Feeds events, each with its time, and checks the step that each leads to.
fn walk(pipeline: &mut Pipeline, steps: Vec<(Event, u128, Phase)>) {
    for (event, ms, phase) in steps {
        assert_eq!(pipeline.step(event, ms), None);
        assert_eq!(pipeline.phase(), phase);
    }
}

#[test]
fn run_without_options() {
    let mut pipeline = Pipeline::new(request(None), true);
    assert_eq!(pipeline.phase(), Phase::ReadInput);
    assert!(pipeline.outcome().is_none());
    walk(
        &mut pipeline,
        vec![
            (Event::Done, 1, Phase::DecodeInput),
            (Event::Done, 2, Phase::ReadPreset),
            (preset(None), 3, Phase::Transform),
            (transformed(), 4, Phase::StartGpu),
            (Event::Done, 5, Phase::Render),
            (Event::Rendered { width: 600, height: 400 }, 6, Phase::Encode),
            (Event::Done, 7, Phase::Save),
            (Event::Done, 8, Phase::Finished),
        ],
    );
    assert_eq!(pipeline.outcome(), Some(Ok(())));
    assert_eq!(pipeline.shrink_to(), None);
    let times = vec![
        Timing { label: "decode (RAW→linear)", ms: 2 },
        Timing { label: "preset parse", ms: 3 },
        Timing { label: "geometry + mask raster", ms: 4 },
        Timing { label: "GPU init", ms: 5 },
        Timing { label: "GPU process + readback", ms: 6 },
        Timing { label: "encode + write", ms: 8 },
    ];
    assert_eq!(
        pipeline.report(50, true, (600, 400)),
        report(&times, 50, (600, 400), true, (600, 400), "out.jpg")
    );
}

#[test]
fn run_with_lookup_table_and_resize() {
    let mut pipeline = Pipeline::new(request(Some(300)), true);
    walk(
        &mut pipeline,
        vec![
            (Event::Done, 1, Phase::DecodeInput),
            (Event::Done, 2, Phase::ReadPreset),
            (preset(Some("film.cube")), 3, Phase::Transform),
            (transformed(), 4, Phase::LoadLut),
        ],
    );
    assert_eq!(pipeline.lut_path().map(String::as_str), Some("film.cube"));
    walk(
        &mut pipeline,
        vec![
            (Event::Done, 5, Phase::StartGpu),
            (Event::Done, 6, Phase::Render),
            (Event::Rendered { width: 640, height: 480 }, 7, Phase::Fit),
        ],
    );
    assert_eq!(pipeline.shrink_to(), Some(300));
    walk(
        &mut pipeline,
        vec![
            (Event::Done, 8, Phase::Encode),
            (Event::Done, 9, Phase::Save),
            (Event::Done, 10, Phase::Finished),
        ],
    );
    let times = vec![
        Timing { label: "decode (RAW→linear)", ms: 2 },
        Timing { label: "preset parse", ms: 3 },
        Timing { label: "geometry + mask raster", ms: 4 },
        Timing { label: "GPU init", ms: 6 },
        Timing { label: "GPU process + readback", ms: 7 },
        Timing { label: "resize (Lanczos3)", ms: 8 },
        Timing { label: "encode + write", ms: 10 },
    ];
    assert_eq!(
        pipeline.report(60, false, (300, 225)),
        report(&times, 60, (600, 400), false, (300, 225), "out.jpg")
    );
}

#[test]
fn resize_time_is_kept_without_shrinking() {
    let mut pipeline = Pipeline::new(request(Some(600)), true);
    walk(
        &mut pipeline,
        vec![
            (Event::Done, 0, Phase::DecodeInput),
            (Event::Done, 0, Phase::ReadPreset),
            (preset(None), 0, Phase::Transform),
            (transformed(), 0, Phase::StartGpu),
            (Event::Done, 0, Phase::Render),
            (Event::Rendered { width: 600, height: 400 }, 0, Phase::Fit),
        ],
    );
    assert_eq!(pipeline.shrink_to(), None);
    assert_eq!(pipeline.step(Event::Done, 3), None);
    assert!(pipeline.report(0, false, (600, 400)).contains("resize (Lanczos3)"));
}

#[test]
fn job_of_the_server_starts_no_gpu_and_keeps_no_times() {
    let mut pipeline = Pipeline::new(request(None), false);
    walk(
        &mut pipeline,
        vec![
            (Event::Done, 1, Phase::DecodeInput),
            (Event::Done, 2, Phase::ReadPreset),
            (preset(Some("x")), 3, Phase::Transform),
            (transformed(), 4, Phase::LoadLut),
            (Event::Done, 5, Phase::Render),
            (Event::Rendered { width: 1, height: 1 }, 6, Phase::Encode),
            (Event::Done, 7, Phase::Save),
            (Event::Done, 8, Phase::Finished),
        ],
    );
    assert_eq!(pipeline.outcome(), Some(Ok(())));
    assert_eq!(
        pipeline.report(9, false, (1, 1)),
        report(&vec![], 9, (600, 400), false, (1, 1), "out.jpg")
    );
}

#[test]
fn failures_end_the_rendering() {
    for done in 0..2 {
        let mut pipeline = Pipeline::new(request(None), true);
        for _ in 0..done {
            pipeline.step(Event::Done, 0);
        }
        assert_eq!(pipeline.step(failed("broken"), 0), None);
        assert_eq!(pipeline.phase(), Phase::Finished);
        assert_eq!(pipeline.outcome(), Some(Err("broken".to_string())));
        assert_eq!(pipeline.step(failed("again"), 0), None);
        assert_eq!(pipeline.step(Event::Done, 0), None);
        assert_eq!(pipeline.outcome(), Some(Err("broken".to_string())));
    }
}

#[test]
fn failure_to_save_is_no_success() {
    let mut pipeline = Pipeline::new(request(None), false);
    pipeline.step(Event::Done, 0);
    pipeline.step(Event::Done, 0);
    pipeline.step(preset(None), 0);
    pipeline.step(transformed(), 0);
    pipeline.step(Event::Rendered { width: 2, height: 2 }, 0);
    pipeline.step(Event::Done, 0);
    assert_eq!(pipeline.phase(), Phase::Save);
    pipeline.step(failed("disk full"), 0);
    assert_eq!(pipeline.outcome(), Some(Err("disk full".to_string())));
}

#[test]
fn lookup_table_that_fails_is_warned_about() {
    let mut pipeline = Pipeline::new(request(None), true);
    pipeline.step(Event::Done, 0);
    pipeline.step(Event::Done, 0);
    pipeline.step(preset(Some("a.cube")), 0);
    pipeline.step(transformed(), 0);
    let warning = pipeline.step(failed("no such file"), 0);
    assert_eq!(
        warning.as_deref(),
        Some("Warning: could not load LUT 'a.cube': no such file")
    );
    assert_eq!(warning, Some(lut_warning("a.cube", "no such file")));
    assert_eq!(pipeline.phase(), Phase::StartGpu);
    assert!(pipeline.outcome().is_none());
}

#[test]
fn masks_that_are_skipped_are_noted() {
    let part = |mask_type: &str| SubMask { mask_type: mask_type.to_string() };
    let mut pipeline = Pipeline::new(request(None), true);
    pipeline.step(Event::Done, 0);
    pipeline.step(Event::Done, 0);
    pipeline.step(preset(None), 0);
    let masks = vec![
        MaskDefinition { sub_masks: vec![part("color"), part("linear")] },
        MaskDefinition { sub_masks: vec![part("luminance")] },
    ];
    let note = pipeline.step(Event::Transformed { width: 3, height: 2, masks }, 0);
    assert_eq!(
        note.as_deref(),
        Some("Note: 2 color/luminance mask(s) skipped (need full-res source)")
    );
    assert_eq!(pipeline.phase(), Phase::StartGpu);
}

#[test]
fn events_out_of_place_change_nothing() {
    let mut pipeline = Pipeline::new(request(None), true);
    assert_eq!(pipeline.step(preset(Some("x")), 0), None);
    assert_eq!(pipeline.step(transformed(), 0), None);
    assert_eq!(pipeline.step(Event::Rendered { width: 1, height: 1 }, 0), None);
    assert_eq!(pipeline.phase(), Phase::ReadInput);
    assert!(pipeline.lut_path().is_none());
}

#[test]
fn times_begin_with_their_phases() {
    let mut pipeline = Pipeline::new(request(Some(1)), true);
    let mut begun = vec![];
    let events = vec![
        Event::Done,
        Event::Done,
        preset(Some("x")),
        transformed(),
        Event::Done,
        Event::Done,
        Event::Rendered { width: 9, height: 9 },
        Event::Done,
        Event::Done,
        Event::Done,
    ];
    for event in events {
        begun.push(pipeline.begins_time());
        pipeline.step(event, 0);
    }
    assert_eq!(begun, [true, false, true, true, false, true, true, true, true, false]);
    assert!(!pipeline.begins_time());
    assert_eq!(pipeline.outcome(), Some(Ok(())));
}

#[test]
fn request_is_kept() {
    let mut pipeline = Pipeline::new(request(Some(5)), true);
    pipeline.step(Event::Done, 0);
    assert_eq!(pipeline.request().input, "in.nef");
    assert_eq!(pipeline.request().preset, "p.rrdata");
    assert_eq!(pipeline.request().output, "out.jpg");
    assert_eq!(pipeline.request().quality, 80);
    assert_eq!(pipeline.request().resize, Some(5));
}

#[test]
fn bound_beyond_the_picture_changes_nothing() {
    let mut free = Pipeline::new(request(None), false);
    let mut bounded = Pipeline::new(request(Some(600)), false);
    for pipeline in [&mut free, &mut bounded] {
        pipeline.step(Event::Done, 0);
        pipeline.step(Event::Done, 0);
        pipeline.step(preset(None), 0);
        pipeline.step(transformed(), 0);
        pipeline.step(Event::Rendered { width: 600, height: 400 }, 0);
    }
    assert_eq!(bounded.phase(), Phase::Fit);
    bounded.step(Event::Done, 0);
    for pipeline in [&mut free, &mut bounded] {
        assert_eq!(pipeline.phase(), Phase::Encode);
        assert_eq!(pipeline.shrink_to(), None);
        pipeline.step(Event::Done, 0);
        pipeline.step(Event::Done, 0);
        assert_eq!(pipeline.outcome(), Some(Ok(())));
    }
}
