//! What an export does with the cuts between clips, and which clips make
//! the picture and which the sound.
//!
//! A transition becomes things the renderer already knows how to draw: an
//! incoming clip overlapping the outgoing one on a lane of its own, or fade
//! filters on both sides of the cut. The timing of each is seconds and frame
//! rates, which the host works out in floating point; the decisions and the
//! filter text are made here.

use vstd::prelude::*;

use crate::export::{ClipKind, ExportClip};
use crate::scan::{decimal, push_decimal};
use crate::text::{push_text, string_from_chars};

verus! {

/// What a cut's transition resolves to.
#[derive(Clone, Copy, PartialEq, Eq, Structural, Debug)]
pub enum CutStyle {
    /// The incoming clip extends back over the outgoing one and dissolves in.
    CrossFade,
    /// Each side fades through black at the cut.
    FadeBlack,
    /// Each side fades through white at the cut.
    FadeWhite,
    /// A plain cut: the kind is unknown here, or fades are not baked.
    Plain,
}

/// The style a transition kind resolves to. Fades only resolve when they
/// are baked into the clips; any kind this build does not know is a plain
/// cut rather than a failed export.
pub open spec fn style_of(kind: Seq<char>, bake_fades: bool) -> CutStyle {
    if kind == "cross-fade"@ {
        CutStyle::CrossFade
    } else if bake_fades && kind == "fade-black"@ {
        CutStyle::FadeBlack
    } else if bake_fades && kind == "fade-white"@ {
        CutStyle::FadeWhite
    } else {
        CutStyle::Plain
    }
}

/// The style a transition kind resolves to; see `style_of`.
pub fn cut_style(kind: &str, bake_fades: bool) -> (style: CutStyle)
    ensures
        style == style_of(kind@, bake_fades),
{
    let kind = kind.to_owned();
    if kind == String::from_str("cross-fade") {
        CutStyle::CrossFade
    } else if bake_fades && kind == String::from_str("fade-black") {
        CutStyle::FadeBlack
    } else if bake_fades && kind == String::from_str("fade-white") {
        CutStyle::FadeWhite
    } else {
        CutStyle::Plain
    }
}

/// Whether a clip puts a picture in the export: a visual kind on a lane that
/// is switched on. Only such clips take part in cuts, on either side.
pub open spec fn pictured<N>(clip: ExportClip<N>) -> bool {
    !clip.hidden && (clip.kind == ClipKind::Video || clip.kind == ClipKind::Image)
}

/// Whether a clip puts a picture in the export; see `pictured`.
pub fn shows_picture<N>(clip: &ExportClip<N>) -> (shows: bool)
    ensures
        shows == pictured(*clip),
{
    !clip.hidden && clip.kind.is_visual()
}

/// Whether a sound-only clip is heard: its lane is not muted.
pub open spec fn audible<N>(clip: ExportClip<N>) -> bool {
    clip.kind == ClipKind::Audio && !clip.muted
}

/// Whether footage contributes its own sound: its lane is not muted.
pub open spec fn voiced<N>(clip: ExportClip<N>) -> bool {
    clip.kind == ClipKind::Video && !clip.muted
}

/// The positions in `clips` where `keep` holds, in order.
pub open spec fn picked<N>(clips: Seq<ExportClip<N>>, keep: spec_fn(ExportClip<N>) -> bool) -> Seq<usize>
    decreases clips.len(),
{
    if clips.len() == 0 {
        Seq::empty()
    } else if keep(clips.last()) {
        picked(clips.drop_last(), keep).push((clips.len() - 1) as usize)
    } else {
        picked(clips.drop_last(), keep)
    }
}

/// The lanes before transitions resolve: every index doubles, so an
/// incoming cross-fade clip can take the odd lane directly above the pair
/// it dissolves over while the stacking of every other lane is kept.
pub fn double_lanes<N>(clips: &mut Vec<ExportClip<N>>)
    requires
        forall|i: int| 0 <= i < old(clips)@.len() ==> #[trigger] old(clips)@[i].track <= usize::MAX / 2,
    ensures
        final(clips)@.len() == old(clips)@.len(),
        forall|i: int|
            0 <= i < final(clips)@.len() ==> #[trigger] final(clips)@[i] == (ExportClip {
                track: (old(clips)@[i].track * 2) as usize,
                ..old(clips)@[i]
            }),
{
    let mut i: usize = 0;
    while i < clips.len()
        invariant
            i <= clips@.len(),
            clips@.len() == old(clips)@.len(),
            forall|j: int| i <= j < clips@.len() ==> #[trigger] clips@[j] == old(clips)@[j],
            forall|j: int|
                0 <= j < old(clips)@.len() ==> #[trigger] old(clips)@[j].track <= usize::MAX / 2,
            forall|j: int|
                0 <= j < i ==> #[trigger] clips@[j] == (ExportClip {
                    track: (old(clips)@[j].track * 2) as usize,
                    ..old(clips)@[j]
                }),
        decreases clips@.len() - i,
    {
        let track = clips[i].track;
        assert(clips@[i as int] == old(clips)@[i as int]);
        clips[i].track = track * 2;
        i += 1;
    }
}

/// The positions of the clips that make the picture, in order.
pub fn picture_clips<N>(clips: &Vec<ExportClip<N>>) -> (indices: Vec<usize>)
    ensures
        indices@ == picked(clips@, |c: ExportClip<N>| pictured(c)),
{
    let ghost keep = |c: ExportClip<N>| pictured(c);
    let mut indices: Vec<usize> = Vec::new();
    let mut i: usize = 0;
    while i < clips.len()
        invariant
            i <= clips@.len(),
            keep == (|c: ExportClip<N>| pictured(c)),
            indices@ == picked(clips@.take(i as int), keep),
        decreases clips@.len() - i,
    {
        proof {
            assert(clips@.take(i + 1).drop_last() =~= clips@.take(i as int));
            assert(clips@.take(i + 1).last() == clips@[i as int]);
        }
        if shows_picture(&clips[i]) {
            indices.push(i);
        }
        i += 1;
    }
    proof {
        assert(clips@.take(clips@.len() as int) =~= clips@);
    }
    indices
}

/// The positions of the clips that make the sound, in mixing order: the
/// heard sound-only clips first, then the footage that carries its own.
pub fn sound_clips<N>(clips: &Vec<ExportClip<N>>) -> (indices: Vec<usize>)
    ensures
        indices@ == picked(clips@, |c: ExportClip<N>| audible(c)) + picked(
            clips@,
            |c: ExportClip<N>| voiced(c),
        ),
{
    let ghost heard = |c: ExportClip<N>| audible(c);
    let ghost footage = |c: ExportClip<N>| voiced(c);
    let mut indices: Vec<usize> = Vec::new();
    let mut i: usize = 0;
    while i < clips.len()
        invariant
            i <= clips@.len(),
            heard == (|c: ExportClip<N>| audible(c)),
            indices@ == picked(clips@.take(i as int), heard),
        decreases clips@.len() - i,
    {
        proof {
            assert(clips@.take(i + 1).drop_last() =~= clips@.take(i as int));
            assert(clips@.take(i + 1).last() == clips@[i as int]);
        }
        if clips[i].kind == ClipKind::Audio && !clips[i].muted {
            indices.push(i);
        }
        i += 1;
    }
    proof {
        assert(clips@.take(clips@.len() as int) =~= clips@);
    }
    let ghost first = indices@;
    let mut i: usize = 0;
    while i < clips.len()
        invariant
            i <= clips@.len(),
            footage == (|c: ExportClip<N>| voiced(c)),
            indices@ == first + picked(clips@.take(i as int), footage),
        decreases clips@.len() - i,
    {
        proof {
            assert(clips@.take(i + 1).drop_last() =~= clips@.take(i as int));
            assert(clips@.take(i + 1).last() == clips@[i as int]);
        }
        if clips[i].kind == ClipKind::Video && !clips[i].muted {
            indices.push(i);
            proof {
                assert(indices@ =~= first + picked(clips@.take(i + 1), footage));
            }
        }
        i += 1;
    }
    proof {
        assert(clips@.take(clips@.len() as int) =~= clips@);
    }
    indices
}

/// What a colour-through fade adds to its filter: nothing for black.
pub open spec fn fade_colour(white: bool) -> Seq<char> {
    if white {
        ":color=white"@
    } else {
        Seq::empty()
    }
}

/// A fade lasts at least one frame, however short its half of the
/// transition rounds to.
pub open spec fn fade_length(frames: int) -> int {
    if frames < 1 {
        1
    } else {
        frames
    }
}

/// The fade the outgoing clip ends with: over its last `frames` frames
/// (at least one), starting no earlier than its first.
pub open spec fn fade_out_text(total: int, frames: int, white: bool) -> Seq<char> {
    let length = fade_length(frames);
    let start = if total - length > 0 {
        total - length
    } else {
        0
    };
    "fade=t=out:start_frame="@ + decimal(start as nat) + ":nb_frames="@ + decimal(length as nat)
        + fade_colour(white)
}

/// The fade the incoming clip begins with: over its first `frames` frames
/// (at least one).
pub open spec fn fade_in_text(frames: int, white: bool) -> Seq<char> {
    "fade=t=in:start_frame=0:nb_frames="@ + decimal(fade_length(frames) as nat) + fade_colour(white)
}

fn push_colour(out: &mut Vec<char>, white: bool)
    ensures
        final(out)@ == old(out)@ + fade_colour(white),
{
    if white {
        push_text(out, ":color=white");
    } else {
        assert(out@ =~= old(out)@ + fade_colour(white));
    }
}

/// The FFmpeg filter that fades out the end of a clip `total` frames long
/// over `frames` frames; see `fade_out_text`.
pub fn fade_out_filter(total: i64, frames: i64, white: bool) -> (filter: String)
    ensures
        filter@ == fade_out_text(total as int, frames as int, white),
{
    let length: i64 = if frames < 1 {
        1
    } else {
        frames
    };
    let start: i64 = if total > length {
        total - length
    } else {
        0
    };
    let mut out: Vec<char> = Vec::new();
    push_text(&mut out, "fade=t=out:start_frame=");
    push_decimal(&mut out, start as u64);
    push_text(&mut out, ":nb_frames=");
    push_decimal(&mut out, length as u64);
    push_colour(&mut out, white);
    proof {
        assert(out@ =~= fade_out_text(total as int, frames as int, white));
    }
    string_from_chars(&out)
}

/// The FFmpeg filter that fades in the start of a clip over `frames`
/// frames; see `fade_in_text`.
pub fn fade_in_filter(frames: i64, white: bool) -> (filter: String)
    ensures
        filter@ == fade_in_text(frames as int, white),
{
    let length: i64 = if frames < 1 {
        1
    } else {
        frames
    };
    let mut out: Vec<char> = Vec::new();
    push_text(&mut out, "fade=t=in:start_frame=0:nb_frames=");
    push_decimal(&mut out, length as u64);
    push_colour(&mut out, white);
    proof {
        assert(out@ =~= fade_in_text(frames as int, white));
    }
    string_from_chars(&out)
}

/// One cut a transition sits on: the clip coming in, the clip going out,
/// and what the transition asked for.
pub struct Cut<N> {
    /// Position of the clip after the cut.
    pub incoming: usize,
    /// Position of the clip before it, on the same lane.
    pub outgoing: usize,
    /// The transition's kind, as the flattener wrote it.
    pub kind: String,
    /// The transition's length, as the flattener wrote it.
    pub duration: N,
}

/// Whether the clip at `k` could be the one going out of a cut into the
/// clip at `i`: it shows a picture on the same lane.
pub open spec fn could_go_out<N>(clips: Seq<ExportClip<N>>, k: int, i: int) -> bool {
    pictured(clips[k]) && clips[k].track == clips[i].track
}

/// Whether `found` is what searching for the clip going out of a cut into
/// the clip at `i` gives, where `meets` says whether one clip ends where
/// another starts: the first candidate that meets it, or none.
pub open spec fn found_outgoing<N, F: Fn(&ExportClip<N>, &ExportClip<N>) -> bool>(
    clips: Seq<ExportClip<N>>,
    i: int,
    meets: F,
    found: Option<usize>,
) -> bool {
    match found {
        Some(j) => {
            &&& j < clips.len()
            &&& could_go_out(clips, j as int, i)
            &&& call_ensures(meets, (&clips[j as int], &clips[i]), true)
            &&& forall|k: int|
                0 <= k < j && #[trigger] could_go_out(clips, k, i) ==> call_ensures(
                    meets,
                    (&clips[k], &clips[i]),
                    false,
                )
        },
        None => forall|k: int|
            0 <= k < clips.len() && #[trigger] could_go_out(clips, k, i) ==> call_ensures(
                meets,
                (&clips[k], &clips[i]),
                false,
            ),
    }
}

/// The cut into the clip at `i`, if there is one: the clip must carry a
/// transition and show a picture, and the search for the clip going out
/// must find another clip. A transition whose cut was edited apart is
/// orphaned, not fatal.
pub open spec fn cut_into<N, F: Fn(&ExportClip<N>, &ExportClip<N>) -> bool>(
    clips: Seq<ExportClip<N>>,
    i: int,
    meets: F,
    cut: Option<Cut<N>>,
) -> bool {
    match clips[i].transition {
        None => cut is None,
        Some(transition) => if !pictured(clips[i]) {
            cut is None
        } else {
            exists|found: Option<usize>|
                #[trigger] found_outgoing(clips, i, meets, found) && match found {
                    Some(j) => if j as int != i {
                        cut == Some(
                            Cut {
                                incoming: i as usize,
                                outgoing: j,
                                kind: transition.kind,
                                duration: transition.duration,
                            },
                        )
                    } else {
                        cut is None
                    },
                    None => cut is None,
                }
        },
    }
}

/// Whether `cuts` are the cuts into the first `count` clips, in order.
pub open spec fn cuts_collected<N, F: Fn(&ExportClip<N>, &ExportClip<N>) -> bool>(
    clips: Seq<ExportClip<N>>,
    meets: F,
    count: nat,
    cuts: Seq<Cut<N>>,
) -> bool
    decreases count,
{
    if count == 0 {
        cuts.len() == 0
    } else {
        let i = count - 1;
        if cuts.len() > 0 && cuts.last().incoming == i {
            &&& cut_into(clips, i, meets, Some(cuts.last()))
            &&& cuts_collected(clips, meets, (count - 1) as nat, cuts.drop_last())
        } else {
            &&& cut_into(clips, i, meets, None)
            &&& cuts_collected(clips, meets, (count - 1) as nat, cuts)
        }
    }
}

fn outgoing_clip<N, F: Fn(&ExportClip<N>, &ExportClip<N>) -> bool>(
    clips: &Vec<ExportClip<N>>,
    i: usize,
    meets: &F,
) -> (found: Option<usize>)
    requires
        i < clips@.len(),
        forall|a: &ExportClip<N>, b: &ExportClip<N>| call_requires(*meets, (a, b)),
    ensures
        found_outgoing(clips@, i as int, *meets, found),
{
    let incoming = &clips[i];
    let mut k: usize = 0;
    while k < clips.len()
        invariant
            k <= clips@.len(),
            i < clips@.len(),
            incoming == &clips@[i as int],
            forall|a: &ExportClip<N>, b: &ExportClip<N>| call_requires(*meets, (a, b)),
            forall|j: int|
                0 <= j < k && #[trigger] could_go_out(clips@, j, i as int) ==> call_ensures(
                    *meets,
                    (&clips@[j], &clips@[i as int]),
                    false,
                ),
        decreases clips@.len() - k,
    {
        let other = &clips[k];
        if shows_picture(other) && other.track == incoming.track {
            if meets(other, incoming) {
                return Some(k);
            }
        }
        k += 1;
    }
    None
}

/// The cuts the clips' transitions sit on, collected before anything
/// moves, so resolving one transition cannot unhook the adjacency test of
/// the next. `meets(a, b)` says whether `a` ends where `b` starts.
pub fn collect_cuts<N: Copy, F: Fn(&ExportClip<N>, &ExportClip<N>) -> bool>(
    clips: &Vec<ExportClip<N>>,
    meets: F,
) -> (cuts: Vec<Cut<N>>)
    requires
        forall|a: &ExportClip<N>, b: &ExportClip<N>| call_requires(meets, (a, b)),
    ensures
        cuts_collected(clips@, meets, clips@.len() as nat, cuts@),
{
    let mut cuts: Vec<Cut<N>> = Vec::new();
    let mut i: usize = 0;
    while i < clips.len()
        invariant
            i <= clips@.len(),
            forall|a: &ExportClip<N>, b: &ExportClip<N>| call_requires(meets, (a, b)),
            cuts_collected(clips@, meets, i as nat, cuts@),
            forall|c: int| 0 <= c < cuts@.len() ==> #[trigger] cuts@[c].incoming < i,
        decreases clips@.len() - i,
    {
        let clip = &clips[i];
        let ghost before = cuts@;
        match &clip.transition {
            Some(transition) => {
                if shows_picture(clip) {
                    let found = outgoing_clip(clips, i, &meets);
                    match found {
                        Some(outgoing) => {
                            if outgoing != i {
                                cuts.push(
                                    Cut {
                                        incoming: i,
                                        outgoing,
                                        kind: transition.kind.clone(),
                                        duration: transition.duration,
                                    },
                                );
                                proof {
                                    assert(cuts@.drop_last() =~= before);
                                    assert(cut_into(clips@, i as int, meets, Some(cuts@.last())));
                                }
                            } else {
                                proof {
                                    assert(cut_into(clips@, i as int, meets, None));
                                }
                            }
                        },
                        None => {
                            proof {
                                assert(cut_into(clips@, i as int, meets, None));
                            }
                        },
                    }
                }
            },
            None => {},
        }
        proof {
            if cuts@.len() > 0 && cuts@.last().incoming == i {
            } else {
                if before.len() > 0 {
                    assert(before.last().incoming < i);
                }
            }
        }
        i += 1;
    }
    cuts
}

/// The search for the clip going out of a cut considers every picture on
/// the incoming clip's lane, of any visual kind: if some shown video or
/// still on that lane certainly meets the incoming clip (`meets` cannot say
/// otherwise), the search finds a clip, at or before it.
pub proof fn lemma_any_meeting_picture_is_found<N, F: Fn(&ExportClip<N>, &ExportClip<N>) -> bool>(
    clips: Seq<ExportClip<N>>,
    i: int,
    k: int,
    meets: F,
    found: Option<usize>,
)
    requires
        0 <= i < clips.len(),
        0 <= k < clips.len(),
        !clips[k].hidden,
        clips[k].kind == ClipKind::Video || clips[k].kind == ClipKind::Image,
        clips[k].track == clips[i].track,
        !call_ensures(meets, (&clips[k], &clips[i]), false),
        found_outgoing(clips, i, meets, found),
    ensures
        found matches Some(j) && j <= k,
{
    assert(could_go_out(clips, k, i));
}

/// A still that meets the footage before it on its lane takes part in a
/// cut with it: when the incoming clip carries a transition and shows a
/// picture, and the only clip that can meet it is a shown video or still on
/// its lane, the cut into it pairs it with that clip and keeps the
/// transition as asked.
pub proof fn lemma_a_meeting_picture_makes_the_cut<N, F: Fn(&ExportClip<N>, &ExportClip<N>) -> bool>(
    clips: Seq<ExportClip<N>>,
    i: int,
    k: int,
    meets: F,
    cut: Option<Cut<N>>,
)
    requires
        clips.len() <= usize::MAX,
        0 <= i < clips.len(),
        0 <= k < clips.len(),
        k != i,
        !clips[i].hidden,
        clips[i].kind == ClipKind::Video || clips[i].kind == ClipKind::Image,
        clips[i].transition is Some,
        !clips[k].hidden,
        clips[k].kind == ClipKind::Video || clips[k].kind == ClipKind::Image,
        clips[k].track == clips[i].track,
        !call_ensures(meets, (&clips[k], &clips[i]), false),
        forall|j: int| 0 <= j < clips.len() && j != k ==> !call_ensures(meets, (&clips[j], &clips[i]), true),
        cut_into(clips, i, meets, cut),
    ensures
        cut matches Some(c) && c.incoming == i && c.outgoing == k && c.kind == clips[i].transition->0.kind
            && c.duration == clips[i].transition->0.duration,
{
    assert forall|found: Option<usize>| #[trigger] found_outgoing(clips, i, meets, found) implies found
        == Some(k as usize) by {
        lemma_any_meeting_picture_is_found(clips, i, k, meets, found);
        let j = found->0 as int;
        if j != k {
            assert(call_ensures(meets, (&clips[j], &clips[i]), true));
        }
    }
    assert(pictured(clips[i]));
}

} // verus!
