//! What holds of every rendering, whatever its steps come to.

use vstd::prelude::*;

use image::DynamicImage;

use crate::masks::MaskDefinition;
use crate::pipeline::{Event, EventView, Phase, Progress, Request};
use crate::timing::Row;

verus! {

/// The place of a step in the order of all steps.
pub open spec fn rank(phase: Phase) -> nat {
    match phase {
        Phase::ReadInput => 0,
        Phase::DecodeInput => 1,
        Phase::ReadPreset => 2,
        Phase::Transform => 3,
        Phase::LoadLut => 4,
        Phase::StartGpu => 5,
        Phase::Render => 6,
        Phase::Fit => 7,
        Phase::Encode => 8,
        Phase::Save => 9,
        Phase::Finished => 10,
    }
}

/// The names of the times that were kept.
pub open spec fn labels(rows: Seq<Row>) -> Seq<Seq<char>> {
    rows.map_values(|row: Row| row.label)
}

/// The names of the times of everything before the rendered picture comes back.
pub open spec fn labels_to_render() -> Seq<Seq<char>> {
    seq![
        "decode (RAW→linear)"@,
        "preset parse"@,
        "geometry + mask raster"@,
        "GPU init"@,
        "GPU process + readback"@,
    ]
}

/// The names of all times up to encoding: a time for the resizing is kept whenever
/// a bound was asked for, whether or not the picture exceeded it.
pub open spec fn labels_to_encode(resize: Option<u32>) -> Seq<Seq<char>> {
    if resize is Some {
        labels_to_render().push("resize (Lanczos3)"@)
    } else {
        labels_to_render()
    }
}

/// The names of all times of a rendering that came to its end.
pub open spec fn all_labels(resize: Option<u32>) -> Seq<Seq<char>> {
    labels_to_encode(resize).push("encode + write"@)
}

/// The names of the times that have been kept when a step is reached.
pub open spec fn labels_before(phase: Phase, resize: Option<u32>) -> Seq<Seq<char>> {
    match phase {
        Phase::ReadInput | Phase::DecodeInput => Seq::empty(),
        Phase::ReadPreset => labels_to_render().take(1),
        Phase::Transform => labels_to_render().take(2),
        Phase::LoadLut | Phase::StartGpu => labels_to_render().take(3),
        Phase::Render => labels_to_render().take(4),
        Phase::Fit => labels_to_render(),
        Phase::Encode | Phase::Save => labels_to_encode(resize),
        Phase::Finished => all_labels(resize),
    }
}

/// What holds of a rendering at every point.
pub open spec fn consistent(p: Progress) -> bool {
    // Only a rendering that has ended has failed.
    &&& p.failure is Some ==> p.phase is Finished
    // The times kept are those of the steps that were done, in their order.
    &&& p.batch && p.failure is None ==> labels(p.rows) == labels_before(p.phase, p.resize)
    &&& p.batch && p.failure is Some ==> exists|phase: Phase|
        labels(p.rows) == #[trigger] labels_before(phase, p.resize)
    &&& !p.batch ==> p.rows.len() == 0
    // Steps that can be left out are reached only where they are called for.
    &&& p.phase is LoadLut ==> p.lut_path is Some
    &&& p.phase is StartGpu ==> p.batch
    &&& p.phase is Fit ==> p.resize is Some
}

/// Keeping one more time adds its name to the names.
proof fn lemma_labels_push(rows: Seq<Row>, row: Row)
    ensures
        labels(rows.push(row)) == labels(rows).push(row.label),
{
    assert(labels(rows.push(row)) =~= labels(rows).push(row.label));
}

/// How the names before one step follow from those before the step it comes after.
proof fn lemma_labels_grow(resize: Option<u32>)
    ensures
        labels_before(Phase::ReadPreset, resize) == labels_before(Phase::DecodeInput, resize).push(
            "decode (RAW→linear)"@,
        ),
        labels_before(Phase::Transform, resize) == labels_before(Phase::ReadPreset, resize).push(
            "preset parse"@,
        ),
        labels_before(Phase::LoadLut, resize) == labels_before(Phase::Transform, resize).push(
            "geometry + mask raster"@,
        ),
        labels_before(Phase::Render, resize) == labels_before(Phase::StartGpu, resize).push(
            "GPU init"@,
        ),
        labels_to_render() == labels_before(Phase::Render, resize).push(
            "GPU process + readback"@,
        ),
{
    let all = labels_to_render();
    assert(all.take(1) =~= Seq::<Seq<char>>::empty().push("decode (RAW→linear)"@));
    assert(all.take(2) =~= all.take(1).push("preset parse"@));
    assert(all.take(3) =~= all.take(2).push("geometry + mask raster"@));
    assert(all.take(4) =~= all.take(3).push("GPU init"@));
    assert(all =~= all.take(4).push("GPU process + readback"@));
}

/// Every rendering begins as it should.
pub proof fn law_start_is_consistent(batch: bool, resize: Option<u32>)
    ensures
        consistent(crate::pipeline::start(batch, resize)),
{
    assert(labels(crate::pipeline::start(batch, resize).rows) =~= Seq::<Seq<char>>::empty());
}

/// No event, expected or not, brings a rendering out of order: what held of it
/// before holds of it afterwards.
pub proof fn law_step_keeps_consistency(p: Progress, event: EventView, ms: u128)
    requires
        consistent(p),
    ensures
        consistent(crate::pipeline::next(p, event, ms)),
{
    let q = crate::pipeline::next(p, event, ms);
    lemma_labels_grow(p.resize);
    if p.batch && q.rows.len() > p.rows.len() {
        lemma_labels_push(p.rows, q.rows.last());
        assert(q.rows =~= p.rows.push(q.rows.last()));
    }
    if p.batch && q.failure is Some && p.failure is None {
        assert(labels(q.rows) == labels_before(p.phase, p.resize));
    }
}

/// A run of its own that came to its end kept a time for each of its phases, in
/// their order, with one for the resizing exactly if a bound was asked for. A job
/// of the server keeps no times.
pub proof fn law_times_of_a_finished_run(p: Progress)
    requires
        consistent(p),
        p.phase is Finished,
        p.failure is None,
    ensures
        p.batch ==> labels(p.rows) == all_labels(p.resize),
        !p.batch ==> p.rows.len() == 0,
{
}

/// An event either changes nothing or brings the rendering forward: no step is ever
/// done twice.
pub proof fn law_steps_go_forward(p: Progress, event: EventView, ms: u128)
    requires
        consistent(p),
    ensures
        ({
            let q = crate::pipeline::next(p, event, ms);
            q == p || rank(q.phase) > rank(p.phase)
        }),
{
}

/// Where a rendering stands after a sequence of events.
pub open spec fn after(p: Progress, events: Seq<(EventView, u128)>) -> Progress
    decreases events.len(),
{
    if events.len() == 0 {
        p
    } else {
        let before = after(p, events.drop_last());
        crate::pipeline::next(before, events.last().0, events.last().1)
    }
}

/// Whether every one of these events answered the step that it came in.
pub open spec fn all_answered(p: Progress, events: Seq<(EventView, u128)>) -> bool
    decreases events.len(),
{
    events.len() > 0 ==> all_answered(p, events.drop_last()) && after(p, events) != after(
        p,
        events.drop_last(),
    )
}

/// One more event that is answered brings a rendering at least one step forward.
proof fn lemma_one_more(p: Progress, events: Seq<(EventView, u128)>)
    requires
        events.len() > 0,
        consistent(after(p, events.drop_last())),
        after(p, events) != after(p, events.drop_last()),
    ensures
        consistent(after(p, events)),
        rank(after(p, events).phase) > rank(after(p, events.drop_last()).phase),
{
    let before = after(p, events.drop_last());
    law_step_keeps_consistency(before, events.last().0, events.last().1);
    law_steps_go_forward(before, events.last().0, events.last().1);
}

/// A rendering is over after at most ten steps.
pub proof fn law_rendering_ends(
    batch: bool,
    resize: Option<u32>,
    events: Seq<(EventView, u128)>,
)
    requires
        all_answered(crate::pipeline::start(batch, resize), events),
    ensures
        consistent(after(crate::pipeline::start(batch, resize), events)),
        events.len() <= rank(after(crate::pipeline::start(batch, resize), events).phase) <= 10,
    decreases events.len(),
{
    if events.len() == 0 {
        law_start_is_consistent(batch, resize);
    } else {
        law_rendering_ends(batch, resize, events.drop_last());
        lemma_one_more(crate::pipeline::start(batch, resize), events);
    }
}

/// The first failure ends a rendering with its own reason, unless it is that of the
/// lookup table: nothing is printed and no time is kept for the step that failed.
pub proof fn law_failure_ends_the_rendering(p: Progress, reason: Seq<char>, ms: u128)
    requires
        !(p.phase is Finished),
        !(p.phase is LoadLut),
    ensures
        crate::pipeline::next(p, EventView::Failed(reason), ms) == crate::pipeline::failed(
            p,
            reason,
        ),
        crate::pipeline::notice(p, EventView::Failed(reason)) is None,
{
}

/// A rendering that has ended stays as it is.
pub proof fn law_ended_is_ended(p: Progress, event: EventView, ms: u128)
    requires
        p.phase is Finished,
    ensures
        crate::pipeline::next(p, event, ms) == p,
        crate::pipeline::notice(p, event) is None,
{
}

/// A lookup table that cannot be loaded is warned about, by its path and the
/// reason, and the rendering goes on as if it had been loaded.
pub proof fn law_missing_lut_only_warns(p: Progress, path: Seq<char>, reason: Seq<char>, ms: u128)
    requires
        p.phase is LoadLut,
        p.lut_path == Some(path),
    ensures
        crate::pipeline::next(p, EventView::Failed(reason), ms) == crate::pipeline::next(
            p,
            EventView::Done,
            ms,
        ),
        crate::pipeline::notice(p, EventView::Failed(reason)) == Some(
            crate::pipeline::lut_warning_text(path, reason),
        ),
        crate::pipeline::notice(p, EventView::Done) is None,
{
}

/// A rendering succeeds in one way only: by saving the picture. So nothing is
/// written by a rendering that fails before.
pub proof fn law_success_is_saving(p: Progress, event: EventView, ms: u128)
    requires
        consistent(p),
        !(p.phase is Finished),
    ensures
        ({
            let q = crate::pipeline::next(p, event, ms);
            q.phase is Finished && q.failure is None <==> p.phase is Save && event is Done
        }),
{
}

/// A rendering as the server sees it: without times, and with the graphics
/// processor already up.
pub open spec fn as_job(p: Progress) -> Progress {
    Progress {
        batch: false,
        rows: Seq::empty(),
        phase: if p.phase is StartGpu {
            Phase::Render
        } else {
            p.phase
        },
        ..p
    }
}

/// A job of the server renders as a run of its own does: apart from starting the
/// graphics processor, which only the run does, the same events lead both through
/// the same steps, to the same end and with the same notices.
pub proof fn law_jobs_render_like_runs(p: Progress, event: EventView, ms: u128)
    requires
        p.batch,
    ensures
        ({
            let q = crate::pipeline::next(p, event, ms);
            let job = as_job(p);
            &&& !(p.phase is StartGpu) ==> as_job(q) == crate::pipeline::next(job, event, ms)
            &&& !(p.phase is StartGpu) ==> crate::pipeline::notice(p, event)
                == crate::pipeline::notice(job, event)
            &&& p.phase is StartGpu && event is Done ==> as_job(q) == job
        }),
        as_job(crate::pipeline::start(true, p.resize)) == crate::pipeline::start(false, p.resize),
{
    let q = crate::pipeline::next(p, event, ms);
    let begun = crate::pipeline::start(true, p.resize);
    assert(as_job(begun) =~= crate::pipeline::start(false, p.resize));
    if !(p.phase is StartGpu) {
        assert(as_job(q) =~= crate::pipeline::next(as_job(p), event, ms));
    }
    if p.phase is StartGpu && event is Done {
        assert(as_job(q) =~= as_job(p));
    }
}

/// The lookup table is loaded exactly if the preset names one, and the graphics
/// processor is started exactly in a run of its own.
pub proof fn law_optional_steps(p: Progress, width: u32, height: u32, skipped: nat, ms: u128)
    requires
        p.phase is Transform,
    ensures
        ({
            let q = crate::pipeline::next(p, EventView::Transformed { width, height, skipped }, ms);
            &&& q.phase is LoadLut <==> p.lut_path is Some
            &&& p.lut_path is None ==> q.phase == crate::pipeline::after_lut(p.batch)
            &&& crate::pipeline::after_lut(p.batch) is StartGpu <==> p.batch
        }),
{
}

/// The events without those that came while `phase` was the step to be done.
pub open spec fn events_outside(
    p: Progress,
    events: Seq<(EventView, u128)>,
    phase: Phase,
) -> Seq<(EventView, u128)>
    decreases events.len(),
{
    if events.len() == 0 {
        Seq::empty()
    } else {
        let earlier = events_outside(p, events.drop_last(), phase);
        if after(p, events.drop_last()).phase == phase {
            earlier
        } else {
            earlier.push(events.last())
        }
    }
}

/// Whether no failure came while `phase` was the step to be done.
pub open spec fn never_fails_in(
    p: Progress,
    events: Seq<(EventView, u128)>,
    phase: Phase,
) -> bool
    decreases events.len(),
{
    events.len() > 0 ==> {
        &&& never_fails_in(p, events.drop_last(), phase)
        &&& !(after(p, events.drop_last()).phase == phase && events.last().0 is Failed)
    }
}

/// What is printed on the way.
pub open spec fn notices(p: Progress, events: Seq<(EventView, u128)>) -> Seq<Seq<char>>
    decreases events.len(),
{
    if events.len() == 0 {
        Seq::empty()
    } else {
        let earlier = notices(p, events.drop_last());
        match crate::pipeline::notice(after(p, events.drop_last()), events.last().0) {
            Some(text) => earlier.push(text),
            None => earlier,
        }
    }
}

/// What a rendering was begun with stays, and so does its consistency.
proof fn lemma_after_start(batch: bool, resize: Option<u32>, events: Seq<(EventView, u128)>)
    ensures
        ({
            let p = after(crate::pipeline::start(batch, resize), events);
            p.batch == batch && p.resize == resize && consistent(p)
        }),
    decreases events.len(),
{
    let begun = crate::pipeline::start(batch, resize);
    if events.len() == 0 {
        law_start_is_consistent(batch, resize);
    } else {
        lemma_after_start(batch, resize, events.drop_last());
        law_step_keeps_consistency(
            after(begun, events.drop_last()),
            events.last().0,
            events.last().1,
        );
    }
}

/// A whole job of the server ends as a whole run does: on the same events, apart from
/// those of starting the graphics processor, which has to succeed, both stand at the
/// same step in the end, with the same failure if any, are to bring the picture down to
/// the same edge, and have printed the same notices.
pub proof fn law_whole_jobs_end_like_whole_runs(
    resize: Option<u32>,
    events: Seq<(EventView, u128)>,
)
    requires
        never_fails_in(crate::pipeline::start(true, resize), events, Phase::StartGpu),
    ensures
        ({
            let run = crate::pipeline::start(true, resize);
            let job = crate::pipeline::start(false, resize);
            let shared = events_outside(run, events, Phase::StartGpu);
            &&& as_job(after(run, events)) == after(job, shared)
            &&& after(run, events).failure == after(job, shared).failure
            &&& after(run, events).phase is Finished <==> after(job, shared).phase is Finished
            &&& after(run, events).shrink_to == after(job, shared).shrink_to
            &&& notices(run, events) == notices(job, shared)
        }),
    decreases events.len(),
{
    let run = crate::pipeline::start(true, resize);
    let job = crate::pipeline::start(false, resize);
    assert(as_job(run) =~= job);
    if events.len() > 0 {
        let before = events.drop_last();
        let event = events.last();
        let shared = events_outside(run, before, Phase::StartGpu);
        law_whole_jobs_end_like_whole_runs(resize, before);
        lemma_after_start(true, resize, before);
        law_jobs_render_like_runs(after(run, before), event.0, event.1);
        assert(shared.push(event).drop_last() =~= shared);
        assert(shared.push(event).last() == event);
    }
}

/// A rendering without regard to times and to a bound on its size.
pub open spec fn unbounded(p: Progress) -> Progress {
    Progress {
        resize: None,
        rows: Seq::empty(),
        phase: if p.phase is Fit {
            Phase::Encode
        } else {
            p.phase
        },
        ..p
    }
}

/// Whether no rendered picture has an edge beyond the bound.
pub open spec fn are_within(events: Seq<(EventView, u128)>, bound: u32) -> bool {
    forall|i: int|
        0 <= i < events.len() ==> (#[trigger] events[i].0 matches EventView::Rendered {
            width,
            height,
        } ==> width <= bound && height <= bound)
}

/// A bound that the picture does not exceed changes nothing but the times: on the same
/// events, apart from those of fitting, which has nothing to do and succeeds, a rendering
/// with the bound ends as one without, and neither brings the picture down.
pub proof fn law_bound_beyond_the_picture_changes_nothing(
    batch: bool,
    bound: u32,
    events: Seq<(EventView, u128)>,
)
    requires
        never_fails_in(crate::pipeline::start(batch, Some(bound)), events, Phase::Fit),
        are_within(events, bound),
    ensures
        ({
            let bounded = crate::pipeline::start(batch, Some(bound));
            let free = crate::pipeline::start(batch, None);
            let shared = events_outside(bounded, events, Phase::Fit);
            &&& unbounded(after(bounded, events)) == unbounded(after(free, shared))
            &&& after(bounded, events).failure == after(free, shared).failure
            &&& after(bounded, events).shrink_to is None
            &&& after(free, shared).shrink_to is None
            &&& notices(bounded, events) == notices(free, shared)
        }),
    decreases events.len(),
{
    let bounded = crate::pipeline::start(batch, Some(bound));
    let free = crate::pipeline::start(batch, None);
    assert(unbounded(bounded) =~= unbounded(free));
    if events.len() > 0 {
        let before = events.drop_last();
        let event = events.last();
        let shared = events_outside(bounded, before, Phase::Fit);
        assert(are_within(before, bound)) by {
            assert forall|i: int| 0 <= i < before.len() implies (
            #[trigger] before[i].0 matches EventView::Rendered { width, height } ==> width <= bound
                && height <= bound) by {
                assert(before[i] == events[i]);
            }
        }
        assert(events[events.len() - 1] == event);
        law_bound_beyond_the_picture_changes_nothing(batch, bound, before);
        lemma_after_start(batch, Some(bound), before);
        lemma_after_start(batch, None, shared);
        let p = after(bounded, before);
        let q = after(free, shared);
        assert(shared.push(event).drop_last() =~= shared);
        assert(shared.push(event).last() == event);
        assert(unbounded(p) == unbounded(q));
        if p.phase is Fit {
            assert(unbounded(crate::pipeline::next(p, event.0, event.1)) =~= unbounded(p));
        } else {
            assert(p.phase == q.phase);
            assert(unbounded(crate::pipeline::next(p, event.0, event.1)) =~= unbounded(
                crate::pipeline::next(q, event.0, event.1),
            ));
        }
    }
}

/// Where a preset was read from plays no part: two renderings that were asked for the
/// same but for the path of the preset begin alike, so the same events lead both to the
/// same end, with the same notices.
pub proof fn law_path_of_preset_plays_no_part(
    a: Request,
    b: Request,
    batch: bool,
    events: Seq<(EventView, u128)>,
)
    requires
        a == (Request { preset: a.preset, ..b }),
    ensures
        after(crate::pipeline::start(batch, a.resize), events) == after(
            crate::pipeline::start(batch, b.resize),
            events,
        ),
        notices(crate::pipeline::start(batch, a.resize), events) == notices(
            crate::pipeline::start(batch, b.resize),
            events,
        ),
{
}

/// Whether this is what encoding a rendered picture comes to, once it was brought down to
/// the edge that is given, if one is.
pub open spec fn is_saved(
    rendered: DynamicImage,
    shrink_to: Option<u32>,
    path: Seq<char>,
    quality: u8,
    result: Result<Vec<u8>, String>,
) -> bool {
    exists|fitted: DynamicImage|
        #![trigger crate::picture::is_fitted(rendered, shrink_to, fitted)]
        crate::picture::is_fitted(rendered, shrink_to, fitted) && crate::output::is_encoded(
            crate::picture::image_shape(fitted),
            crate::picture::image_samples(fitted),
            crate::output::format_for(crate::output::extension_of(path)),
            quality,
            result,
        )
}

/// Whether two results of saving under one path are in the same byte order.
pub open spec fn are_comparable(
    path: Seq<char>,
    a: Result<Vec<u8>, String>,
    b: Result<Vec<u8>, String>,
) -> bool {
    crate::output::format_for(crate::output::extension_of(path)) matches Ok(format)
        ==> crate::output::in_one_order(format, a, b)
}

/// With a bound that a picture does not exceed, the very bytes are saved that are saved
/// without one.
pub proof fn law_bound_beyond_the_picture_saves_the_same(
    rendered: DynamicImage,
    bound: u32,
    path: Seq<char>,
    quality: u8,
    a: Result<Vec<u8>, String>,
    b: Result<Vec<u8>, String>,
)
    requires
        ({
            let shape = crate::picture::image_shape(rendered);
            let bounded = crate::picture::shrink_to(shape.width, shape.height, Some(bound));
            let free = crate::picture::shrink_to(shape.width, shape.height, None);
            &&& crate::picture::longer_edge(shape.width, shape.height) <= bound
            &&& is_saved(rendered, bounded, path, quality, a)
            &&& is_saved(rendered, free, path, quality, b)
        }),
        are_comparable(path, a, b),
    ensures
        a matches Ok(one) ==> b matches Ok(other) ==> one@ == other@,
        is_saved(rendered, None, path, quality, a),
{
    crate::output::law_same_picture_same_bytes(
        crate::picture::image_shape(rendered),
        crate::picture::image_samples(rendered),
        crate::output::format_for(crate::output::extension_of(path)),
        quality,
        quality,
        a,
        b,
    );
}

/// Fitting a rendered picture and encoding the result is saving it.
pub proof fn law_fitted_and_encoded_is_saved(
    rendered: DynamicImage,
    shrink_to: Option<u32>,
    fitted: DynamicImage,
    path: Seq<char>,
    quality: u8,
    result: Result<Vec<u8>, String>,
)
    requires
        crate::picture::is_fitted(rendered, shrink_to, fitted),
        crate::output::is_encoded(
            crate::picture::image_shape(fitted),
            crate::picture::image_samples(fitted),
            crate::output::format_for(crate::output::extension_of(path)),
            quality,
            result,
        ),
    ensures
        is_saved(rendered, shrink_to, path, quality, result),
{
}

/// Whether two pictures have the same shape and samples.
pub open spec fn are_alike(a: DynamicImage, b: DynamicImage) -> bool {
    &&& crate::picture::image_shape(a) == crate::picture::image_shape(b)
    &&& crate::picture::image_samples(a) == crate::picture::image_samples(b)
}

/// A run and a job that rendered the same picture, and so two renderings with one preset
/// under different paths, save the same bytes. Where the picture is brought down, that
/// is so if resampling came to the same both times, as it does on one machine.
pub proof fn law_same_rendering_saves_the_same(
    rendered: DynamicImage,
    shrink_to: Option<u32>,
    fitted: DynamicImage,
    other_fitted: DynamicImage,
    path: Seq<char>,
    quality: u8,
    a: Result<Vec<u8>, String>,
    b: Result<Vec<u8>, String>,
)
    requires
        crate::picture::is_fitted(rendered, shrink_to, fitted),
        crate::picture::is_fitted(rendered, shrink_to, other_fitted),
        shrink_to is Some ==> are_alike(fitted, other_fitted),
        crate::output::is_encoded(
            crate::picture::image_shape(fitted),
            crate::picture::image_samples(fitted),
            crate::output::format_for(crate::output::extension_of(path)),
            quality,
            a,
        ),
        crate::output::is_encoded(
            crate::picture::image_shape(other_fitted),
            crate::picture::image_samples(other_fitted),
            crate::output::format_for(crate::output::extension_of(path)),
            quality,
            b,
        ),
        are_comparable(path, a, b),
    ensures
        is_saved(rendered, shrink_to, path, quality, a),
        is_saved(rendered, shrink_to, path, quality, b),
        a matches Ok(one) ==> b matches Ok(other) ==> one@ == other@,
{
    crate::output::law_same_picture_same_bytes(
        crate::picture::image_shape(fitted),
        crate::picture::image_samples(fitted),
        crate::output::format_for(crate::output::extension_of(path)),
        quality,
        quality,
        a,
        b,
    );
}

/// Every rendering begins by reading its input, with the bound that was asked for and
/// nothing else known.
pub proof fn law_every_rendering_begins_alike(batch: bool, resize: Option<u32>)
    ensures
        ({
            let p = crate::pipeline::start(batch, resize);
            &&& p.phase is ReadInput
            &&& p.batch == batch
            &&& p.resize == resize
            &&& p.lut_path is None
            &&& p.shrink_to is None
            &&& p.rows.len() == 0
            &&& p.failure is None
        }),
{
}

/// What a rendering was asked for stays, whatever comes of its steps.
pub proof fn law_what_was_asked_stays(p: Progress, event: EventView, ms: u128)
    ensures
        crate::pipeline::next(p, event, ms).batch == p.batch,
        crate::pipeline::next(p, event, ms).resize == p.resize,
{
}

/// A step that fails, whichever it is but for the loading of the lookup table, ends the
/// rendering with its reason. So the rendering never succeeds, never saves and keeps that
/// reason, whatever still comes.
pub proof fn law_failed_step_is_the_end(
    p: Progress,
    reason: Seq<char>,
    ms: u128,
    later: Seq<(EventView, u128)>,
)
    requires
        !(p.phase is Finished),
        !(p.phase is LoadLut),
    ensures
        ({
            let q = crate::pipeline::next(p, EventView::Failed(reason), ms);
            &&& q.phase is Finished
            &&& q.failure == Some(reason)
            &&& q.rows == p.rows
            &&& after(q, later).phase is Finished
            &&& after(q, later).failure == Some(reason)
            &&& after(q, later).rows == p.rows
        }),
    decreases later.len(),
{
    if later.len() > 0 {
        law_failed_step_is_the_end(p, reason, ms, later.drop_last());
    }
}

/// A rendering fails only because a step of its own failed, and only for the reason that
/// this step gave.
pub proof fn law_only_failed_steps_fail(p: Progress, event: EventView, ms: u128)
    ensures
        crate::pipeline::next(p, event, ms).failure != p.failure ==> {
            &&& event is Failed
            &&& crate::pipeline::next(p, event, ms).failure == Some(event->Failed_0)
            &&& !(p.phase is LoadLut)
            &&& !(p.phase is Finished)
        },
{
}

/// The order of the steps: which step follows once one was done.
pub proof fn law_order_of_steps(p: Progress, event: EventView, ms: u128)
    ensures
        ({
            let then = crate::pipeline::next(p, event, ms).phase;
            &&& p.phase is ReadInput && event is Done ==> then is DecodeInput
            &&& p.phase is DecodeInput && event is Done ==> then is ReadPreset
            &&& p.phase is ReadPreset && event is Preset ==> then is Transform
            &&& p.phase is Transform && event is Transformed && p.lut_path is Some ==> then
                is LoadLut
            &&& p.phase is Transform && event is Transformed && p.lut_path is None && p.batch
                ==> then is StartGpu
            &&& p.phase is Transform && event is Transformed && p.lut_path is None && !p.batch
                ==> then is Render
            &&& p.phase is LoadLut && (event is Done || event is Failed) && p.batch ==> then
                is StartGpu
            &&& p.phase is LoadLut && (event is Done || event is Failed) && !p.batch ==> then
                is Render
            &&& p.phase is StartGpu && event is Done ==> then is Render
            &&& p.phase is Render && event is Rendered && p.resize is Some ==> then is Fit
            &&& p.phase is Render && event is Rendered && p.resize is None ==> then is Encode
            &&& p.phase is Fit && event is Done ==> then is Encode
            &&& p.phase is Encode && event is Done ==> then is Save
            &&& p.phase is Save && event is Done ==> then is Finished
        }),
{
}

/// What is no answer to a step leaves the rendering as it is: the preset belongs to the
/// step that reads it, the two sizes to the steps that find them, and every other step
/// is just done or fails.
pub proof fn law_what_is_no_answer_changes_nothing(p: Progress, event: EventView, ms: u128)
    requires
        event is Preset ==> !(p.phase is ReadPreset),
        event is Transformed ==> !(p.phase is Transform),
        event is Rendered ==> !(p.phase is Render),
        event is Done ==> p.phase is ReadPreset || p.phase is Transform || p.phase is Render
            || p.phase is Finished,
        event is Failed ==> p.phase is Finished,
    ensures
        crate::pipeline::next(p, event, ms) == p,
        crate::pipeline::notice(p, event) is None,
{
}

/// The lookup table that a preset names, whatever its path, is the one that the rendering
/// has from then on to its end; and where a preset names none, it has none.
pub proof fn law_lookup_table_of_the_preset_is_kept(
    p: Progress,
    path: Option<Seq<char>>,
    ms: u128,
    later: Seq<(EventView, u128)>,
)
    requires
        p.phase is ReadPreset,
    ensures
        ({
            let q = crate::pipeline::next(p, EventView::Preset { lut_path: path }, ms);
            &&& q.lut_path == path
            &&& after(q, later).lut_path == path
            &&& rank(after(q, later).phase) >= 3
        }),
    decreases later.len(),
{
    if later.len() > 0 {
        law_lookup_table_of_the_preset_is_kept(p, path, ms, later.drop_last());
    }
}

/// A lookup table that the preset names is loaded from the path that the preset gives,
/// straight after the geometry, and what is said where that fails names this path.
pub proof fn law_named_lookup_table_is_loaded(
    p: Progress,
    path: Seq<char>,
    width: u32,
    height: u32,
    skipped: nat,
    reason: Seq<char>,
    ms: u128,
)
    requires
        p.phase is ReadPreset,
    ensures
        ({
            let read = EventView::Preset { lut_path: Some(path) };
            let moved = EventView::Transformed { width, height, skipped };
            let q = crate::pipeline::next(crate::pipeline::next(p, read, ms), moved, ms);
            &&& q.phase is LoadLut
            &&& q.lut_path == Some(path)
            &&& crate::pipeline::notice(q, EventView::Failed(reason)) == Some(
                "Warning: could not load LUT '"@ + path + "': "@ + reason,
            )
            &&& crate::pipeline::next(q, EventView::Failed(reason), ms).failure == p.failure
            &&& crate::pipeline::next(q, EventView::Failed(reason), ms).phase is StartGpu
                || crate::pipeline::next(q, EventView::Failed(reason), ms).phase is Render
        }),
{
}

/// Only reading the preset says which lookup table there is.
pub proof fn law_only_the_preset_names_a_lookup_table(p: Progress, event: EventView, ms: u128)
    requires
        !(p.phase is ReadPreset && event is Preset),
    ensures
        crate::pipeline::next(p, event, ms).lut_path == p.lut_path,
{
}

/// A rendered picture with an edge beyond the bound, wide or high, is to be brought down
/// to the bound; one within the bound, or without a bound, is not.
pub proof fn law_bound_decides_on_shrinking(p: Progress, width: u32, height: u32, ms: u128)
    requires
        p.phase is Render,
    ensures
        ({
            let q = crate::pipeline::next(p, EventView::Rendered { width, height }, ms);
            &&& p.resize matches Some(edge) ==> {
                &&& width > edge ==> q.shrink_to == Some(edge)
                &&& height > edge ==> q.shrink_to == Some(edge)
                &&& width <= edge && height <= edge ==> q.shrink_to is None
            }
            &&& p.resize is None ==> q.shrink_to is None
        }),
{
}

/// Turning a picture on its side changes nothing of whether it is brought down, and to
/// what; and one that is brought down is so for every smaller bound.
pub proof fn law_shrinking_goes_by_the_longer_edge(
    width: u32,
    height: u32,
    edge: u32,
    smaller: u32,
)
    requires
        smaller <= edge,
    ensures
        crate::picture::shrink_to(width, height, Some(edge)) == crate::picture::shrink_to(
            height,
            width,
            Some(edge),
        ),
        crate::picture::shrink_to(width, height, Some(edge)) is Some
            ==> crate::picture::shrink_to(width, height, Some(smaller)) == Some(smaller),
{
}

/// Only the rendered picture says whether there is anything to bring down.
pub proof fn law_only_the_rendered_picture_is_shrunk(p: Progress, event: EventView, ms: u128)
    requires
        !(p.phase is Render && event is Rendered),
    ensures
        crate::pipeline::next(p, event, ms).shrink_to == p.shrink_to,
{
}

/// The size that is reported for the input is that of the picture after the geometry of
/// the preset, and nothing else changes it.
pub proof fn law_reported_size_is_that_after_the_geometry(
    p: Progress,
    event: EventView,
    ms: u128,
)
    ensures
        ({
            let q = crate::pipeline::next(p, event, ms);
            match event {
                EventView::Transformed { width, height, skipped } => if p.phase is Transform {
                    q.width == width && q.height == height
                } else {
                    q.width == p.width && q.height == p.height
                },
                _ => q.width == p.width && q.height == p.height,
            }
        }),
{
}

/// The name of the time that ends when this event answers this step, if one does.
pub open spec fn time_ended(phase: Phase, event: EventView) -> Option<Seq<char>> {
    if phase is DecodeInput && event is Done {
        Some("decode (RAW→linear)"@)
    } else if phase is ReadPreset && event is Preset {
        Some("preset parse"@)
    } else if phase is Transform && event is Transformed {
        Some("geometry + mask raster"@)
    } else if phase is StartGpu && event is Done {
        Some("GPU init"@)
    } else if phase is Render && event is Rendered {
        Some("GPU process + readback"@)
    } else if phase is Fit && event is Done {
        Some("resize (Lanczos3)"@)
    } else if phase is Save && event is Done {
        Some("encode + write"@)
    } else {
        None
    }
}

/// A run of its own keeps each time that ends, under its name, behind those it has, and
/// no other; a job of the server keeps none.
pub proof fn law_times_are_kept_as_they_end(p: Progress, event: EventView, ms: u128)
    ensures
        ({
            let q = crate::pipeline::next(p, event, ms);
            &&& !p.batch ==> q.rows == p.rows
            &&& p.batch ==> match time_ended(p.phase, event) {
                Some(label) => {
                    &&& q.rows.len() == p.rows.len() + 1
                    &&& q.rows.last().label == label
                    &&& q.rows.last().ms == ms
                    &&& q.rows.drop_last() == p.rows
                },
                None => q.rows == p.rows,
            }
        }),
{
    let q = crate::pipeline::next(p, event, ms);
    if p.batch && time_ended(p.phase, event) is Some {
        assert(q.rows.drop_last() =~= p.rows);
    }
}

/// A new time begins with every step but four: decoding goes on with the time of reading,
/// saving with that of encoding, and loading a lookup table and having ended are not
/// timed.
pub proof fn law_when_times_begin(phase: Phase)
    ensures
        !crate::pipeline::begins_time(phase) <==> phase is DecodeInput || phase is Save || phase
            is LoadLut || phase is Finished,
{
}

/// What is printed: how many parts of masks were skipped, where any were, and the warning
/// about a lookup table; and nothing else.
pub proof fn law_what_is_printed(p: Progress, event: EventView)
    ensures
        match event {
            EventView::Transformed { width, height, skipped } => if p.phase is Transform && skipped
                > 0 {
                crate::pipeline::notice(p, event) == Some(
                    "Note: "@ + crate::numbers::decimal_digits(skipped)
                        + " color/luminance mask(s) skipped (need full-res source)"@,
                )
            } else {
                crate::pipeline::notice(p, event) is None
            },
            EventView::Failed(reason) => if p.phase is LoadLut && p.lut_path is Some {
                crate::pipeline::notice(p, event) == Some(
                    "Warning: could not load LUT '"@ + p.lut_path->0 + "': "@ + reason,
                )
            } else {
                crate::pipeline::notice(p, event) is None
            },
            _ => crate::pipeline::notice(p, event) is None,
        },
{
}

/// What came of a step is taken as it is: its texts, its sizes and the number of parts of
/// its masks that are skipped.
pub proof fn law_events_are_taken_as_they_are(
    path: String,
    width: u32,
    height: u32,
    masks: Vec<MaskDefinition>,
    reason: String,
)
    ensures
        (Event::Done)@ == EventView::Done,
        (Event::Preset { lut_path: Some(path) })@ == (EventView::Preset {
            lut_path: Some(path@),
        }),
        (Event::Preset { lut_path: None })@ == (EventView::Preset { lut_path: None }),
        (Event::Transformed { width, height, masks })@ == (EventView::Transformed {
            width,
            height,
            skipped: crate::masks::skipped_total(masks@),
        }),
        (Event::Rendered { width, height })@ == (EventView::Rendered { width, height }),
        (Event::Failed(reason))@ == EventView::Failed(reason@),
{
}

/// A text that may be missing is taken as it is.
pub proof fn law_optional_text(text: String)
    ensures
        crate::pipeline::option_text(Some(text)) == Some(text@),
        crate::pipeline::option_text(None) is None,
{
}

/// The steps of a run that goes well, with every step called for: one after the other,
/// and none left out, from the input to the saved picture.
pub proof fn law_run_that_goes_well(
    edge: u32,
    path: Seq<char>,
    size: (u32, u32),
    rendered: (u32, u32),
    skipped: nat,
    ms: Seq<u128>,
)
    requires
        ms.len() == 10,
    ensures
        ({
            let read = EventView::Preset { lut_path: Some(path) };
            let moved = EventView::Transformed { width: size.0, height: size.1, skipped };
            let made = EventView::Rendered { width: rendered.0, height: rendered.1 };
            let p0 = crate::pipeline::start(true, Some(edge));
            let p1 = crate::pipeline::next(p0, EventView::Done, ms[0]);
            let p2 = crate::pipeline::next(p1, EventView::Done, ms[1]);
            let p3 = crate::pipeline::next(p2, read, ms[2]);
            let p4 = crate::pipeline::next(p3, moved, ms[3]);
            let p5 = crate::pipeline::next(p4, EventView::Done, ms[4]);
            let p6 = crate::pipeline::next(p5, EventView::Done, ms[5]);
            let p7 = crate::pipeline::next(p6, made, ms[6]);
            let p8 = crate::pipeline::next(p7, EventView::Done, ms[7]);
            let p9 = crate::pipeline::next(p8, EventView::Done, ms[8]);
            let end = crate::pipeline::next(p9, EventView::Done, ms[9]);
            &&& p4.phase is LoadLut && p4.lut_path == Some(path)
            &&& p7.phase is Fit && (p7.shrink_to is Some <==> rendered.0 > edge || rendered.1
                > edge)
            &&& p9.phase is Save
            &&& end.phase is Finished && end.failure is None
            &&& end.width == size.0 && end.height == size.1
            &&& end.rows.map_values(|row: Row| row.ms) =~= seq![
                ms[1],
                ms[2],
                ms[3],
                ms[5],
                ms[6],
                ms[7],
                ms[9],
            ]
        }),
{
}

} // verus!
