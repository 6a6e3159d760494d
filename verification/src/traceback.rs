//! Traceback cosmetics for the import machinery: frames that belong to the
//! frozen import bootstrap are removed from a traceback before it is shown,
//! so failures point at user code.
//!
//! A frame is a bootstrap frame when its source path is one of the frozen
//! bootstrap modules. Such frames are dropped when trimming is unconditional
//! (an import failure) or when execution was inside the bootstrap's
//! call-with-frames-removed helper at that depth; any other frame is kept and
//! resets that state.

use vstd::prelude::*;

verus! {

/// One traceback frame, outermost first in a traceback: the source path and
/// function name of its code object, the instruction offset and the line.
pub struct TracebackFrame {
    pub file_name: String,
    pub obj_name: String,
    pub lasti: u32,
    pub lineno: u32,
}

/// The frame belongs to the frozen import bootstrap.
pub open spec fn sp_bootstrap_frame(f: TracebackFrame) -> bool {
    f.file_name@ == "_frozen_importlib"@ || f.file_name@ == "_frozen_importlib_external"@
}

/// The trimmed form of the frames from position `i` on, and whether position
/// `i` is inside the bootstrap's call-with-frames-removed helper: the walk
/// works from the innermost frame outwards.
pub open spec fn sp_trim(frames: Seq<TracebackFrame>, i: int, always_trim: bool) -> (
    Seq<TracebackFrame>,
    bool,
)
    decreases frames.len() - i,
{
    if i < 0 || i >= frames.len() {
        (Seq::empty(), false)
    } else {
        let (inner, now_inner) = sp_trim(frames, i + 1, always_trim);
        let f = frames[i];
        if sp_bootstrap_frame(f) {
            let now = if f.obj_name@ == "_call_with_frames_removed"@ {
                true
            } else {
                now_inner
            };
            if always_trim || now {
                (inner, now)
            } else {
                (seq![f] + inner, now)
            }
        } else {
            (seq![f] + inner, false)
        }
    }
}

/// Trims the frozen-bootstrap frames out of a traceback, innermost first.
pub(crate) fn remove_importlib_frames_inner(frames: Vec<TracebackFrame>, always_trim: bool) -> (r:
    Vec<TracebackFrame>)
    ensures
        r@ == sp_trim(frames@, 0, always_trim).0,
{
    let ghost frames0 = frames@;
    let mut frames = frames;
    let mut inner: Vec<TracebackFrame> = Vec::new();
    let mut now_in: bool = false;
    let mut i: usize = frames.len();
    proof {
        assert(frames0.take(i as int) =~= frames0);
    }
    while i > 0
        invariant
            i <= frames0.len(),
            frames@ == frames0.take(i as int),
            (inner@, now_in) == sp_trim(frames0, i as int, always_trim),
        decreases i,
    {
        i -= 1;
        let f = match frames.pop() {
            Some(f) => f,
            None => {
                // The loop index keeps the vector non-empty here.
                proof {
                    assert(false);
                }
                return inner;
            },
        };
        proof {
            assert(frames0.take(i as int + 1).last() == frames0[i as int]);
            assert(frames0.take(i as int + 1).drop_last() =~= frames0.take(i as int));
        }
        let frozen: String = "_frozen_importlib".to_owned();
        let frozen_ext: String = "_frozen_importlib_external".to_owned();
        let helper: String = "_call_with_frames_removed".to_owned();
        if f.file_name == frozen || f.file_name == frozen_ext {
            if f.obj_name == helper {
                now_in = true;
            }
            if always_trim || now_in {
                // drop this bootstrap frame
            } else {
                let ghost inner0 = inner@;
                inner.insert(0, f);
                proof {
                    assert(inner@ =~= seq![frames0[i as int]] + inner0);
                }
            }
        } else {
            now_in = false;
            let ghost inner0 = inner@;
            inner.insert(0, f);
            proof {
                assert(inner@ =~= seq![frames0[i as int]] + inner0);
            }
        }
    }
    inner
}

/// Trims the frozen-bootstrap frames out of a failure's traceback, unless
/// verbose output was asked for. Trimming is unconditional for an import
/// failure; otherwise only the frames below the bootstrap's
/// call-with-frames-removed helper go. The caller reads the failure's
/// traceback and stores the result back.
pub fn remove_importlib_frames(
    verbose: u64,
    is_import_error: bool,
    frames: Vec<TracebackFrame>,
) -> (r: Vec<TracebackFrame>)
    ensures
        verbose != 0 ==> r@ == frames@,
        verbose == 0 ==> r@ == sp_trim(frames@, 0, is_import_error).0,
{
    if verbose != 0 {
        return frames;
    }
    remove_importlib_frames_inner(frames, is_import_error)
}

} // verus!
