//! Sequence transformations applied once after the full job list is
//! built: reversal, and the forward-then-backward ping-pong loop.

use vstd::prelude::*;

use crate::config::FrameJob;
use crate::config::JobView;
use crate::config::jobs_view;

verus! {

/// The final frame order. `reverse` inverts the list. `ping-pong`
/// appends the reversed list, dropping its first and last element when
/// the list has more than two entries (the boundary frames already occur
/// as the forward list's last and first); a list of one or zero entries
/// is left untouched. The two transformations are mutually exclusive,
/// `reverse` taking precedence.
pub open spec fn transform_spec(js: Seq<JobView>, reverse: bool, ping_pong: bool) -> Seq<
    JobView,
> {
    if reverse {
        js.reverse()
    } else if ping_pong && js.len() > 1 {
        if js.len() > 2 {
            js + js.reverse().subrange(1, js.len() - 1)
        } else {
            js + js.reverse()
        }
    } else {
        js
    }
}

/// Reversal keeps the length and emits exactly the reverse order.
pub proof fn lemma_reverse_transform(js: Seq<JobView>)
    ensures
        transform_spec(js, true, false).len() == js.len(),
        forall|i: int|
            0 <= i < js.len() ==> transform_spec(js, true, false)[i] == js[js.len() - 1 - i],
{
}

/// Ping-pong on more than two jobs emits `2 * N - 2` frames: the first
/// `N` equal the original sequence, and the tail walks it backwards from
/// the next-to-last job down to the second.
pub proof fn lemma_ping_pong_transform(js: Seq<JobView>)
    requires
        js.len() > 2,
    ensures
        transform_spec(js, false, true).len() == 2 * js.len() - 2,
        forall|i: int| 0 <= i < js.len() ==> transform_spec(js, false, true)[i] == js[i],
        forall|i: int|
            js.len() <= i < 2 * js.len() - 2 ==> transform_spec(js, false, true)[i] == js[2
                * js.len() - 2 - i],
{
}

/// Rearranges the job list into its final encode order.
#[verifier::loop_isolation(false)]
#[verifier::rlimit(60)]
pub fn apply_transform(jobs: Vec<FrameJob>, reverse: bool, ping_pong: bool) -> (r: Vec<
    FrameJob,
>)
    ensures
        jobs_view(r@) == transform_spec(jobs_view(jobs@), reverse, ping_pong),
{
    let ghost orig = jobs@;
    let n: usize = jobs.len();
    if reverse {
        let mut out: Vec<FrameJob> = Vec::new();
        let mut i: usize = 0;
        while i < n
            invariant
                0 <= i <= n,
                out@.len() == i,
                forall|k: int| 0 <= k < i ==> (#[trigger] out@[k])@ == orig[n - 1 - k]@,
            decreases n - i,
        {
            let j: FrameJob = jobs[n - 1 - i].duplicate();
            out.push(j);
            i = i + 1;
        }
        proof {
            assert(jobs_view(out@) =~= transform_spec(jobs_view(orig), reverse, ping_pong));
        }
        out
    } else if ping_pong && n > 1 {
        let lo: usize = if n > 2 {
            1
        } else {
            0
        };
        let hi: usize = if n > 2 {
            n - 2
        } else {
            n - 1
        };
        let cnt: usize = hi - lo + 1;
        let mut out: Vec<FrameJob> = jobs;
        let mut i: usize = 0;
        while i < cnt
            invariant
                0 <= i <= cnt,
                out@.len() == n + i,
                forall|k: int| 0 <= k < n ==> (#[trigger] out@[k])@ == orig[k]@,
                forall|k: int|
                    n <= k < n + i ==> (#[trigger] out@[k])@ == orig[hi - (k - n)]@,
            decreases cnt - i,
        {
            let j: FrameJob = out[hi - i].duplicate();
            out.push(j);
            i = i + 1;
        }
        proof {
            assert(jobs_view(out@) =~= transform_spec(jobs_view(orig), reverse, ping_pong));
        }
        out
    } else {
        jobs
    }
}

} // verus!
