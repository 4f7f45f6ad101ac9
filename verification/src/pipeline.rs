//! The annotation appender and the full pipeline: for each detected
//! press, decide idempotently whether a clip annotation may be added,
//! compute its bounded range, and append it to the store.

use crate::detect::{get_presses, press_indices, to_ints};
use crate::notes::{Note, Notes, NotesModel};
use crate::recording::{Config, Recording};
use crate::select::{byte_rows, find_participant, lemma_first_match_from_range, selected_port};
use crate::PipelineError;
use vstd::prelude::*;

verus! {

/// The start of the clip marked for a press at frame `f` with clip
/// duration `c`: `f - c`, floored at frame 0 so that a press near the
/// start of the recording yields a shorter clip, never a negative start.
pub open spec fn clip_start(f: int, c: int) -> int {
    if f - c > 0 {
        f - c
    } else {
        0
    }
}

/// The store after the appender considers one press at frame `f`: left
/// unchanged when `f` collides with an existing annotation's start or
/// end, otherwise grown by one text annotation whose range runs from
/// [`clip_start`] up to `f`.
pub open spec fn apply_press(v: NotesModel, f: int, c: int, msg: Seq<u8>) -> NotesModel {
    if v.collides(f) {
        v
    } else {
        v.push_text(clip_start(f, c), f - clip_start(f, c), msg)
    }
}

/// The store after the appender considers every press in order.
pub open spec fn apply_presses(v: NotesModel, presses: Seq<int>, c: int, msg: Seq<u8>) -> NotesModel
    decreases presses.len(),
{
    if presses.len() == 0 {
        v
    } else {
        apply_press(apply_presses(v, presses.drop_last(), c, msg), presses.last(), c, msg)
    }
}

/// How many of the presses, considered in order, are actually appended
/// rather than skipped for colliding.
pub open spec fn count_added(v: NotesModel, presses: Seq<int>, c: int, msg: Seq<u8>) -> nat
    decreases presses.len(),
{
    if presses.len() == 0 {
        0
    } else {
        count_added(v, presses.drop_last(), c, msg) + if apply_presses(
            v,
            presses.drop_last(),
            c,
            msg,
        ).collides(presses.last()) {
            0nat
        } else {
            1nat
        }
    }
}

/// What one full run of the pipeline does to the store: the selected
/// participant's presses applied in order, or the error that aborts the
/// run before any mutation.
pub open spec fn run_spec(rec: Recording, v: NotesModel, cfg: Config) -> Result<
    NotesModel,
    PipelineError,
> {
    match selected_port(byte_rows(rec.names@), cfg.identity_filter@) {
        None => Err(PipelineError::ParticipantNotFound),
        Some(p) => match rec.frames@[p] {
            None => Err(PipelineError::NoFramesForParticipant),
            Some(fr) => Ok(
                apply_presses(
                    v,
                    press_indices(fr@, cfg.trigger_button),
                    cfg.clip_len as int,
                    cfg.message@,
                ),
            ),
        },
    }
}

/// The computed clip range for a press at frame `f` with clip duration
/// `c` satisfies `0 <= start <= end == f`, and the recorded length is
/// exactly `end - start`.
pub proof fn lemma_clip_range(f: int, c: int)
    requires
        0 <= f,
        0 <= c,
    ensures
        0 <= clip_start(f, c) <= f,
        clip_start(f, c) + (f - clip_start(f, c)) == f,
{
}

/// Appending a text annotation keeps the store well formed.
pub proof fn lemma_push_text_preserves_wf(v: NotesModel, start: int, len: int, msg: Seq<u8>)
    requires
        v.wf(),
    ensures
        v.push_text(start, len, msg).wf(),
{
    let w = v.push_text(start, len, msg);
    assert forall|i: int| 0 <= i < w.data_idx.len() implies 0 <= #[trigger] w.data_idx[i]
        <= w.data.len() by {
        if i < v.data_idx.len() {
            assert(w.data_idx[i] == v.data_idx[i]);
        }
    }
}

/// Considering one press keeps the store well formed.
pub proof fn lemma_apply_press_preserves_wf(v: NotesModel, f: int, c: int, msg: Seq<u8>)
    requires
        v.wf(),
    ensures
        apply_press(v, f, c, msg).wf(),
{
    if !v.collides(f) {
        lemma_push_text_preserves_wf(v, clip_start(f, c), f - clip_start(f, c), msg);
    }
}

/// Considering any sequence of presses keeps the store well formed: the
/// parallel columns stay index-aligned and every offset stays within
/// its blob, after any number of appends.
pub proof fn lemma_apply_presses_preserve_wf(v: NotesModel, ps: Seq<int>, c: int, msg: Seq<u8>)
    requires
        v.wf(),
    ensures
        apply_presses(v, ps, c, msg).wf(),
    decreases ps.len(),
{
    if ps.len() > 0 {
        lemma_apply_presses_preserve_wf(v, ps.drop_last(), c, msg);
        lemma_apply_press_preserves_wf(apply_presses(v, ps.drop_last(), c, msg), ps.last(), c, msg);
    }
}

/// A frame that collides still collides after an append: the store only
/// ever grows, so existing starts and ends stay in place.
proof fn lemma_push_text_keeps_collision(v: NotesModel, f0: int, start: int, len: int, msg: Seq<u8>)
    requires
        v.wf(),
        v.collides(f0),
    ensures
        v.push_text(start, len, msg).collides(f0),
{
    let w = v.push_text(start, len, msg);
    let i = choose|i: int|
        0 <= i < v.start_frames.len() && (#[trigger] v.start_frames[i] == f0 || v.start_frames[i]
            + v.frame_lengths[i] == f0);
    assert(w.start_frames[i] == v.start_frames[i]);
    assert(w.frame_lengths[i] == v.frame_lengths[i]);
}

/// A frame that collides still collides after one press is considered.
proof fn lemma_apply_press_keeps_collision(v: NotesModel, f0: int, f: int, c: int, msg: Seq<u8>)
    requires
        v.wf(),
        v.collides(f0),
    ensures
        apply_press(v, f, c, msg).collides(f0),
{
    if !v.collides(f) {
        lemma_push_text_keeps_collision(v, f0, clip_start(f, c), f - clip_start(f, c), msg);
    }
}

/// After the appender considers a press at frame `f`, the store has an
/// annotation starting or ending at `f`: either one collided already,
/// or the one just appended ends exactly at `f`.
proof fn lemma_apply_press_collides_self(v: NotesModel, f: int, c: int, msg: Seq<u8>)
    requires
        v.wf(),
    ensures
        apply_press(v, f, c, msg).collides(f),
{
    if !v.collides(f) {
        let w = v.push_text(clip_start(f, c), f - clip_start(f, c), msg);
        let i = v.start_frames.len() as int;
        assert(w.start_frames[i] == clip_start(f, c));
        assert(w.frame_lengths[i] == f - clip_start(f, c));
        assert(w.start_frames[i] + w.frame_lengths[i] == f);
    }
}

/// After a run of the appender, every press it considered collides.
proof fn lemma_apply_presses_collide_all(v: NotesModel, ps: Seq<int>, c: int, msg: Seq<u8>)
    requires
        v.wf(),
    ensures
        forall|k: int| 0 <= k < ps.len() ==> apply_presses(v, ps, c, msg).collides(#[trigger] ps[k]),
    decreases ps.len(),
{
    if ps.len() > 0 {
        let prev = apply_presses(v, ps.drop_last(), c, msg);
        lemma_apply_presses_collide_all(v, ps.drop_last(), c, msg);
        lemma_apply_presses_preserve_wf(v, ps.drop_last(), c, msg);
        lemma_apply_press_collides_self(prev, ps.last(), c, msg);
        assert forall|k: int| 0 <= k < ps.len() implies apply_presses(v, ps, c, msg).collides(
            #[trigger] ps[k],
        ) by {
            if k < ps.len() - 1 {
                assert(ps.drop_last()[k] == ps[k]);
                lemma_apply_presses_preserve_wf(v, ps.drop_last(), c, msg);
                lemma_apply_press_keeps_collision(prev, ps[k], ps.last(), c, msg);
            }
        }
    }
}

/// When every press already collides, the appender changes nothing
/// and counts nothing as added.
proof fn lemma_apply_presses_noop(w: NotesModel, ps: Seq<int>, c: int, msg: Seq<u8>)
    requires
        forall|k: int| 0 <= k < ps.len() ==> w.collides(#[trigger] ps[k]),
    ensures
        apply_presses(w, ps, c, msg) == w,
        count_added(w, ps, c, msg) == 0,
    decreases ps.len(),
{
    if ps.len() > 0 {
        assert(forall|k: int| 0 <= k < ps.drop_last().len() ==> w.collides(
            #[trigger] ps.drop_last()[k],
        ));
        lemma_apply_presses_noop(w, ps.drop_last(), c, msg);
    }
}

/// Idempotence of the appender: applying the same press sequence a
/// second time changes nothing and adds nothing, because the first
/// application leaves every press colliding with an annotation that
/// starts or ends at it.
pub proof fn lemma_apply_presses_idempotent(v: NotesModel, ps: Seq<int>, c: int, msg: Seq<u8>)
    requires
        v.wf(),
    ensures
        apply_presses(apply_presses(v, ps, c, msg), ps, c, msg) == apply_presses(v, ps, c, msg),
        count_added(apply_presses(v, ps, c, msg), ps, c, msg) == 0,
{
    let w = apply_presses(v, ps, c, msg);
    lemma_apply_presses_collide_all(v, ps, c, msg);
    lemma_apply_presses_noop(w, ps, c, msg);

}

/// Idempotence of the full pipeline: when a run over a recording
/// succeeds and yields store `w`, a second run over the same recording,
/// starting from `w`, yields `w` again — every candidate collides with
/// the annotation the first run left ending at it, so the second run
/// skips every one and adds none.
pub proof fn lemma_run_idempotent(rec: Recording, v: NotesModel, cfg: Config)
    requires
        v.wf(),
    ensures
        run_spec(rec, v, cfg) matches Ok(w) ==> run_spec(rec, w, cfg) == Ok::<
            NotesModel,
            PipelineError,
        >(w),
        run_spec(rec, v, cfg) matches Ok(w) ==> (selected_port(
            byte_rows(rec.names@),
            cfg.identity_filter@,
        ) matches Some(p) && rec.frames@[p] matches Some(fr) && count_added(
            w,
            press_indices(fr@, cfg.trigger_button),
            cfg.clip_len as int,
            cfg.message@,
        ) == 0),
{
    match selected_port(byte_rows(rec.names@), cfg.identity_filter@) {
        Some(p) => {
            match rec.frames@[p] {
                Some(fr) => {
                    lemma_apply_presses_idempotent(
                        v,
                        press_indices(fr@, cfg.trigger_button),
                        cfg.clip_len as int,
                        cfg.message@,
                    );
                },
                None => {},
            }
        },
        None => {},
    }
}

/// Whether the candidate frame `f` equals the start or the end of some
/// text annotation already in the store.
fn has_collision(notes: &Notes, f: i32) -> (r: bool)
    requires
        notes@.start_frames.len() == notes@.frame_lengths.len(),
    ensures
        r == notes@.collides(f as int),
{
    let n: usize = notes.start_frames.len();
    let mut i: usize = 0;
    while i < n
        invariant
            i <= n,
            n == notes@.start_frames.len(),
            notes@.start_frames.len() == notes@.frame_lengths.len(),
            forall|j: int|
                0 <= j < i ==> !(#[trigger] notes@.start_frames[j] == f as int
                    || notes@.start_frames[j] + notes@.frame_lengths[j] == f as int),
        decreases n - i,
    {
        let start: i32 = notes.start_frames[i];
        let len: i32 = notes.frame_lengths[i];
        if start == f || (start as i64) + (len as i64) == (f as i64) {
            proof {
                assert(notes@.start_frames[i as int] == start as int);
                assert(notes@.frame_lengths[i as int] == len as int);
            }
            return true;
        }
        proof {
            assert(notes@.start_frames[i as int] == start as int);
            assert(notes@.frame_lengths[i as int] == len as int);
        }
        i = i + 1;
    }
    false
}

/// Considers one detected press: skips it when its frame collides with
/// an existing annotation's start or end, otherwise appends one text
/// annotation whose clip runs from [`clip_start`] up to the press frame.
/// Returns whether an annotation was added.
pub fn add_press_note(notes: &mut Notes, f: i32, clip_len: i32, message: &Vec<u8>) -> (added: bool)
    requires
        old(notes)@.wf(),
        0 <= f,
        0 <= clip_len,
        old(notes).data@.len() + message@.len() <= i32::MAX,
    ensures
        final(notes)@ == apply_press(old(notes)@, f as int, clip_len as int, message@),
        added == !old(notes)@.collides(f as int),
        final(notes)@.wf(),
{
    if has_collision(notes, f) {
        return false;
    }
    let start: i32 = if f - clip_len > 0 {
        f - clip_len
    } else {
        0
    };
    notes.add_range(start, f, Note::Text(message));
    proof {
        lemma_apply_press_preserves_wf(old(notes)@, f as int, clip_len as int, message@);
    }
    true
}

/// Considers every detected press in order, appending where no
/// collision exists. Returns how many annotations were added and how
/// many presses were skipped; together they account for every press.
pub fn annotate_presses(
    notes: &mut Notes,
    presses: &Vec<usize>,
    clip_len: i32,
    message: &Vec<u8>,
) -> (counts: (usize, usize))
    requires
        old(notes)@.wf(),
        0 <= clip_len,
        forall|k: int| 0 <= k < presses@.len() ==> #[trigger] presses@[k] <= i32::MAX,
        old(notes).data@.len() + presses@.len() * message@.len() <= i32::MAX,
    ensures
        final(notes)@ == apply_presses(old(notes)@, to_ints(presses@), clip_len as int, message@),
        final(notes)@.wf(),
        counts.0 == count_added(old(notes)@, to_ints(presses@), clip_len as int, message@),
        counts.0 + counts.1 == presses@.len(),
{
    let ghost v0 = old(notes)@;
    let ghost ps = to_ints(presses@);
    let n: usize = presses.len();
    let mut added: usize = 0;
    let mut skipped: usize = 0;
    let mut k: usize = 0;
    while k < n
        invariant
            k <= n,
            n == presses@.len(),
            ps == to_ints(presses@),
            forall|j: int| 0 <= j < presses@.len() ==> #[trigger] presses@[j] <= i32::MAX,
            0 <= clip_len,
            notes@ == apply_presses(v0, ps.subrange(0, k as int), clip_len as int, message@),
            notes@.wf(),
            added == count_added(v0, ps.subrange(0, k as int), clip_len as int, message@),
            added + skipped == k,
            notes.data@.len() + (n - k) * message@.len() <= i32::MAX,
        decreases n - k,
    {
        proof {
            assert((n - k) * message@.len() >= 1 * message@.len()) by (nonlinear_arith)
                requires
                    k < n,
            ;
        }
        let f: i32 = presses[k] as i32;
        let was_added: bool = add_press_note(notes, f, clip_len, message);
        if was_added {
            added = added + 1;
        } else {
            skipped = skipped + 1;
        }
        proof {
            assert(ps.subrange(0, k + 1).drop_last() =~= ps.subrange(0, k as int));
            assert(ps.subrange(0, k + 1).last() == ps[k as int]);
            assert((n - k) * message@.len() == (n - (k + 1)) * message@.len() + message@.len())
                by (nonlinear_arith)
                requires
                    k < n,
            ;
        }
        k = k + 1;
    }
    proof {
        assert(ps.subrange(0, n as int) =~= ps);
    }
    (added, skipped)
}

/// Runs the whole pipeline against one decoded recording: selects the
/// participant matched by the identity filter, detects that
/// participant's rising edges of the trigger button, and appends one
/// clip annotation per non-colliding press. On failure the store is
/// untouched; on success it holds exactly the applied presses, and the
/// returned pair counts the annotations added and the presses skipped.
pub fn run(rec: &Recording, notes: &mut Notes, cfg: &Config) -> (r: Result<
    (usize, usize),
    PipelineError,
>)
    requires
        rec.wf(),
        old(notes)@.wf(),
        0 <= cfg.clip_len,
        forall|p: int|
            0 <= p < rec.frames@.len() ==> (#[trigger] rec.frames@[p] matches Some(fr) ==> fr@.len()
                <= i32::MAX && old(notes).data@.len() + fr@.len() * cfg.message@.len()
                <= i32::MAX),
    ensures
        final(notes)@.wf(),
        match run_spec(*rec, old(notes)@, *cfg) {
            Ok(w) => r is Ok && final(notes)@ == w,
            Err(e) => r == Err::<(usize, usize), PipelineError>(e) && *final(notes) == *old(notes),
        },
        r matches Ok(counts) ==> (selected_port(byte_rows(rec.names@), cfg.identity_filter@)
            matches Some(p) && rec.frames@[p] matches Some(fr) && counts.0 == count_added(
            old(notes)@,
            press_indices(fr@, cfg.trigger_button),
            cfg.clip_len as int,
            cfg.message@,
        ) && counts.0 + counts.1 == press_indices(fr@, cfg.trigger_button).len()),
{
    let port: usize = match find_participant(&rec.names, &cfg.identity_filter) {
        Ok(p) => p,
        Err(e) => {
            return Err(e);
        },
    };
    proof {
        lemma_first_match_from_range(byte_rows(rec.names@), cfg.identity_filter@, 0);
    }
    match &rec.frames[port] {
        None => Err(PipelineError::NoFramesForParticipant),
        Some(frames) => {
            let presses: Vec<usize> = get_presses(frames, cfg.trigger_button);
            proof {
                crate::detect::lemma_press_indices_len(frames@, cfg.trigger_button);
                assert(presses@.len() * cfg.message@.len() <= frames@.len() * cfg.message@.len())
                    by (nonlinear_arith)
                    requires
                        presses@.len() <= frames@.len(),
                ;
            }
            let counts = annotate_presses(notes, &presses, cfg.clip_len, &cfg.message);
            Ok(counts)
        },
    }
}

} // verus!
