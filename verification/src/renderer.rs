use vstd::prelude::*;
use vstd::arithmetic::div_mod::{
    lemma_fundamental_div_mod, lemma_mod_division_less_than_divisor, lemma_multiply_divide_lt,
};
use vstd::arithmetic::mul::lemma_mul_is_commutative;
use crate::color::{error_color, placeholder_color, random_color, Color};
use crate::framebuffer::Framebuffer;
use crate::partition::{
    lemma_slice_lo_bounds, lin, partition, slice_lo, PixelRange,
};

verus! {

/// Errors the renderer reports to its caller. Per-pixel failures are not
/// here: they are absorbed into the image as the error sentinel color and
/// never interrupt sibling workers.
#[derive(Clone, Copy, PartialEq, Eq, Structural, Debug)]
pub enum RenderError {
    /// Zero width, zero height or zero workers, rejected synchronously at
    /// creation; the renderer never starts.
    InvalidConfiguration,
    /// A worker failed to terminate during teardown. This is the one
    /// condition a driver must surface to the caller of teardown, since it
    /// indicates a broken cancellation contract.
    TeardownJoinFailure,
}

/// A worker either still runs or has reached its own termination, by
/// natural completion, by observing cancellation, or by an early abnormal
/// exit reported through `stop_worker`.
#[derive(Clone, Copy, PartialEq, Eq, Structural, Debug)]
pub enum WorkerStatus {
    Running,
    Stopped,
}

/// The renderer lifecycle. Construction validates and allocates, so a
/// renderer value only ever exists in one of these three states: `Running`
/// from the moment it is built, `Stopping` once cancellation has been
/// requested, and `Stopped`, terminal, once teardown has joined every
/// worker.
#[derive(Clone, Copy, PartialEq, Eq, Structural, Debug)]
pub enum RenderState {
    Running,
    Stopping,
    Stopped,
}

/// Relies on num_cpus::get: the number of logical processing units
/// available to this process; its documentation guarantees it returns at
/// least 1.
pub assume_specification[ num_cpus::get ]() -> (n: usize)
    ensures
        n >= 1,
;

/// The default pool size: one worker per available processing unit.
pub fn default_worker_count() -> (n: usize)
    ensures
        n >= 1,
{
    num_cpus::get()
}

/// The color actually recorded for a pixel: the computed color, or the
/// error sentinel when the evaluation failed, so that one bad pixel never
/// aborts the render.
pub open spec fn pixel_outcome(color: Option<Color>) -> Color {
    match color {
        Some(c) => c,
        None => error_color(),
    }
}

/// One worker: its assigned pixel range, the linear index of the next
/// pixel it will write (its cursor), and whether it still runs.
#[derive(Clone, Copy, PartialEq, Eq, Structural, Debug)]
pub struct Worker {
    pub range: PixelRange,
    pub cursor: usize,
    pub status: WorkerStatus,
}

impl Worker {
    /// How many pixels of its range this worker has completed.
    pub open spec fn done(self, width: int) -> int {
        self.cursor - self.range.start_lin(width)
    }

    /// Well-formedness of worker `i` of `count` over a `width` by `height`
    /// image of `total` pixels: its range is exactly the partitioner's
    /// slice `i`, its cursor lies inside the range, and a worker that
    /// still runs has a pixel left to write.
    pub open spec fn wf(self, width: int, height: int, total: int, count: int, i: int) -> bool {
        &&& self.range.wf(width, height)
        &&& self.range.start_lin(width) == slice_lo(total, count, i)
        &&& self.range.end_lin(width) == slice_lo(total, count, i + 1)
        &&& self.range.start_lin(width) <= self.cursor <= self.range.end_lin(width)
        &&& self.status == WorkerStatus::Running ==> self.cursor < self.range.end_lin(width)
    }
}

/// The completed-pixel count summed over all workers.
pub open spec fn total_done(ws: Seq<Worker>, width: int) -> int
    decreases ws.len(),
{
    if ws.len() == 0 {
        0
    } else {
        total_done(ws.drop_last(), width) + ws.last().done(width)
    }
}

/// The assigned-pixel count summed over all workers.
pub open spec fn total_size(ws: Seq<Worker>, width: int) -> int
    decreases ws.len(),
{
    if ws.len() == 0 {
        0
    } else {
        total_size(ws.drop_last(), width) + ws.last().range.size(width)
    }
}

proof fn lemma_total_done_push(ws: Seq<Worker>, width: int, w: Worker)
    ensures
        total_done(ws.push(w), width) == total_done(ws, width) + w.done(width),
{
    assert(ws.push(w).drop_last() =~= ws);
    assert(ws.push(w).last() == w);
}

proof fn lemma_total_done_update(ws: Seq<Worker>, width: int, i: int, w: Worker)
    requires
        0 <= i < ws.len(),
    ensures
        total_done(ws.update(i, w), width) == total_done(ws, width) - ws[i].done(width) + w.done(
            width,
        ),
    decreases ws.len(),
{
    let ws2 = ws.update(i, w);
    if i == ws.len() - 1 {
        assert(ws2.drop_last() =~= ws.drop_last());
        assert(ws2.last() == w);
    } else {
        assert(ws2.drop_last() =~= ws.drop_last().update(i, w));
        assert(ws2.last() == ws.last());
        lemma_total_done_update(ws.drop_last(), width, i, w);
    }
}

/// No worker's completed count leaves its range, so the summed completed
/// count never exceeds the summed assigned count.
proof fn lemma_total_done_le(ws: Seq<Worker>, width: int)
    requires
        forall|j: int|
            0 <= j < ws.len() ==> 0 <= (#[trigger] ws[j]).done(width) <= ws[j].range.size(width),
    ensures
        0 <= total_done(ws, width) <= total_size(ws, width),
    decreases ws.len(),
{
    if ws.len() > 0 {
        lemma_total_done_le(ws.drop_last(), width);
    }
}

/// With one worker strictly short of its range end, the summed completed
/// count is strictly below the summed assigned count.
proof fn lemma_total_done_lt(ws: Seq<Worker>, width: int, i: int)
    requires
        forall|j: int|
            0 <= j < ws.len() ==> 0 <= (#[trigger] ws[j]).done(width) <= ws[j].range.size(width),
        0 <= i < ws.len(),
        ws[i].done(width) < ws[i].range.size(width),
    ensures
        total_done(ws, width) < total_size(ws, width),
    decreases ws.len(),
{
    if i == ws.len() - 1 {
        lemma_total_done_le(ws.drop_last(), width);
    } else {
        lemma_total_done_lt(ws.drop_last(), width, i);
    }
}

/// The workers' ranges tile the image, so their sizes sum to exactly the
/// pixel count of a `ws.len()`-way partition prefix.
proof fn lemma_total_size_prefix(ws: Seq<Worker>, width: int, total: int, count: int)
    requires
        count >= 1,
        0 <= total,
        ws.len() <= count,
        forall|j: int|
            0 <= j < ws.len() ==> {
                &&& (#[trigger] ws[j]).range.start_lin(width) == slice_lo(total, count, j)
                &&& ws[j].range.end_lin(width) == slice_lo(total, count, j + 1)
            },
    ensures
        total_size(ws, width) == slice_lo(total, count, ws.len() as int),
    decreases ws.len(),
{
    if ws.len() == 0 {
        lemma_slice_lo_bounds(total, count, 0);
    } else {
        lemma_total_size_prefix(ws.drop_last(), width, total, count);
    }
}

/// The renderer controller: it owns the framebuffer, the cancellation
/// flag, the progress counter and the pool of workers, and guarantees a
/// clean, idempotent shutdown. A concurrent driver holds this value behind
/// one mutual-exclusion guard and advances one worker per guarded step, so
/// every interleaving of workers is a sequence of the verified transitions
/// below.
pub struct Renderer {
    pub fb: Framebuffer,
    pub workers: Vec<Worker>,
    pub cancel: bool,
    pub done_pixels: usize,
    pub state: RenderState,
}

impl Renderer {
    /// Image width in pixels.
    pub open spec fn width(self) -> int {
        self.fb.width as int
    }

    /// Image height in pixels.
    pub open spec fn height(self) -> int {
        self.fb.height as int
    }

    /// Total pixel count of the image.
    pub open spec fn total_pixels(self) -> int {
        self.width() * self.height()
    }

    /// The framebuffer contents as a sequence indexed by linear pixel index.
    pub open spec fn image(self) -> Seq<Color> {
        self.fb.pixels@
    }

    /// The renderer invariant, established by `new` and preserved by every
    /// transition: the framebuffer is well-formed, every worker owns
    /// exactly its partition slice with its cursor inside it, the progress
    /// counter equals the summed per-worker completed counts, the
    /// cancellation flag is set exactly when the state has left `Running`,
    /// and a `Stopped` renderer has no running worker.
    pub open spec fn wf(self) -> bool {
        &&& self.fb.wf()
        &&& self.workers.len() >= 1
        &&& forall|i: int|
            0 <= i < self.workers.len() ==> (#[trigger] self.workers[i]).wf(
                self.width(),
                self.height(),
                self.total_pixels(),
                self.workers.len() as int,
                i,
            )
        &&& self.done_pixels == total_done(self.workers@, self.width())
        &&& (self.state == RenderState::Running <==> !self.cancel)
        &&& (self.state == RenderState::Stopped ==> forall|i: int|
            0 <= i < self.workers.len() ==> (#[trigger] self.workers[i]).status
                == WorkerStatus::Stopped)
    }

    /// Fully torn down: cancellation is set, the state is terminal, and
    /// every worker has stopped.
    pub open spec fn torn_down(self) -> bool {
        &&& self.cancel
        &&& self.state == RenderState::Stopped
        &&& forall|i: int|
            0 <= i < self.workers.len() ==> (#[trigger] self.workers[i]).status
                == WorkerStatus::Stopped
    }

    /// Builds a renderer over a `width` by `height` image with a pool of
    /// `worker_count` workers: it rejects a zero dimension or an empty
    /// pool, and otherwise allocates the framebuffer filled with the
    /// placeholder color, clears the cancellation flag and the progress
    /// counter, and assigns every worker its partition slice with its
    /// cursor at the slice start. A worker whose slice is empty has
    /// nothing to do and starts out stopped.
    pub fn new(width: usize, height: usize, worker_count: usize) -> (r: Result<
        Renderer,
        RenderError,
    >)
        requires
            width * height <= usize::MAX,
        ensures
            r is Ok <==> (width >= 1 && height >= 1 && worker_count >= 1),
            match r {
                Ok(rd) => {
                    &&& rd.wf()
                    &&& rd.fb.width == width
                    &&& rd.fb.height == height
                    &&& rd.workers.len() == worker_count
                    &&& rd.cancel == false
                    &&& rd.state == RenderState::Running
                    &&& rd.done_pixels == 0
                    &&& forall|p: int|
                        0 <= p < rd.image().len() ==> rd.image()[p] == placeholder_color()
                    &&& forall|i: int|
                        0 <= i < worker_count ==> (#[trigger] rd.workers[i]).cursor
                            == rd.workers[i].range.start_lin(width as int)
                },
                Err(e) => e == RenderError::InvalidConfiguration && (width == 0 || height == 0
                    || worker_count == 0),
            },
    {
        if width == 0 || height == 0 || worker_count == 0 {
            return Err(RenderError::InvalidConfiguration);
        }
        let fb = Framebuffer::new(width, height);
        let ghost total = (width * height) as int;
        let mut workers: Vec<Worker> = Vec::new();
        let mut i: usize = 0;
        while i < worker_count
            invariant
                1 <= width,
                1 <= height,
                1 <= worker_count,
                width * height <= usize::MAX,
                i <= worker_count,
                workers.len() == i,
                total == (width * height) as int,
                forall|j: int|
                    0 <= j < i ==> (#[trigger] workers[j]).wf(
                        width as int,
                        height as int,
                        total,
                        worker_count as int,
                        j,
                    ),
                forall|j: int|
                    0 <= j < i ==> (#[trigger] workers[j]).cursor == workers[j].range.start_lin(
                        width as int,
                    ),
                total_done(workers@, width as int) == 0,
            decreases worker_count - i,
        {
            let range = partition(width, height, worker_count, i);
            let start: usize = range.start_x + range.start_y * width;
            let endl: usize = range.end_x + range.end_y * width;
            let status = if start == endl {
                WorkerStatus::Stopped
            } else {
                WorkerStatus::Running
            };
            let w = Worker { range, cursor: start, status };
            proof {
                lemma_total_done_push(workers@, width as int, w);
            }
            workers.push(w);
            i = i + 1;
        }
        let rd = Renderer {
            fb,
            workers,
            cancel: false,
            done_pixels: 0,
            state: RenderState::Running,
        };
        Ok(rd)
    }

    /// One guarded step of worker `i`, which must still run: the worker
    /// writes the outcome of the scene's verdict for its current pixel
    /// (`Some` a computed color; `None` a failed evaluation, recorded as
    /// the error sentinel), advances its cursor, bumps the shared progress
    /// counter by one, and then checks the cancellation flag. The
    /// checkpoint runs once per pixel, so after cancellation a worker
    /// stops at its very next step: teardown latency is bounded by one
    /// pixel, never by the remaining range.
    pub fn step_worker(&mut self, i: usize, color: Option<Color>)
        requires
            old(self).wf(),
            i < old(self).workers.len(),
            old(self).workers[i as int].status == WorkerStatus::Running,
        ensures
            final(self).wf(),
            final(self).fb.width == old(self).fb.width,
            final(self).fb.height == old(self).fb.height,
            final(self).cancel == old(self).cancel,
            final(self).state == old(self).state,
            final(self).workers.len() == old(self).workers.len(),
            old(self).workers[i as int].range.contains(
                old(self).width(),
                old(self).workers[i as int].cursor as int,
            ),
            final(self).image() == old(self).image().update(
                old(self).workers[i as int].cursor as int,
                pixel_outcome(color),
            ),
            forall|j: int|
                0 <= j < old(self).workers.len() && j != i ==> final(self).workers[j] == old(
                    self,
                ).workers[j],
            final(self).workers[i as int].range == old(self).workers[i as int].range,
            final(self).workers[i as int].cursor == old(self).workers[i as int].cursor + 1,
            final(self).workers[i as int].status == (if old(self).cancel || old(
                self,
            ).workers[i as int].cursor + 1 == old(self).workers[i as int].range.end_lin(
                old(self).width(),
            ) {
                WorkerStatus::Stopped
            } else {
                WorkerStatus::Running
            }),
            final(self).done_pixels == old(self).done_pixels + 1,
            final(self).done_pixels <= final(self).total_pixels(),
            old(self).cancel ==> final(self).workers[i as int].status == WorkerStatus::Stopped,
    {
        let w = self.workers[i];
        let width = self.fb.width;
        proof {
            assert(old(self).workers[i as int].wf(
                old(self).width(),
                old(self).height(),
                old(self).total_pixels(),
                old(self).workers.len() as int,
                i as int,
            ));
        }
        let endl: usize = w.range.end_x + w.range.end_y * width;
        let c = match color {
            Some(cc) => cc,
            None => Color::error(),
        };
        self.fb.write(w.cursor, c);
        let new_status = if self.cancel || w.cursor + 1 == endl {
            WorkerStatus::Stopped
        } else {
            WorkerStatus::Running
        };
        let w2 = Worker { range: w.range, cursor: w.cursor + 1, status: new_status };
        self.workers.set(i, w2);
        proof {
            lemma_total_done_update(old(self).workers@, width as int, i as int, w2);
            lemma_total_done_lt(old(self).workers@, width as int, i as int);
            lemma_total_size_full(
                old(self).workers@,
                width as int,
                old(self).total_pixels(),
            );
        }
        self.done_pixels = self.done_pixels + 1;
    }

    /// Runs worker `i` to its own termination, writing `color` to every
    /// pixel it completes. A worker that had already stopped is left
    /// untouched. With the cancellation flag clear, the worker completes
    /// its whole remaining range; with the flag set, it stops at its first
    /// checkpoint, after at most one more pixel.
    pub fn run_worker(&mut self, i: usize, color: Color)
        requires
            old(self).wf(),
            i < old(self).workers.len(),
        ensures
            final(self).wf(),
            final(self).fb.width == old(self).fb.width,
            final(self).fb.height == old(self).fb.height,
            final(self).cancel == old(self).cancel,
            final(self).state == old(self).state,
            final(self).workers.len() == old(self).workers.len(),
            forall|j: int|
                0 <= j < old(self).workers.len() && j != i ==> final(self).workers[j] == old(
                    self,
                ).workers[j],
            final(self).workers[i as int].range == old(self).workers[i as int].range,
            final(self).workers[i as int].status == WorkerStatus::Stopped,
            old(self).workers[i as int].cursor <= final(self).workers[i as int].cursor,
            final(self).done_pixels == old(self).done_pixels + (
            final(self).workers[i as int].cursor - old(self).workers[i as int].cursor),
            final(self).done_pixels >= old(self).done_pixels,
            final(self).image().len() == old(self).image().len(),
            forall|p: int|
                0 <= p < old(self).image().len() && !(old(self).workers[i as int].cursor <= p
                    < final(self).workers[i as int].cursor) ==> final(self).image()[p] == old(
                    self,
                ).image()[p],
            forall|p: int|
                old(self).workers[i as int].cursor <= p < final(self).workers[i as int].cursor
                    ==> final(self).image()[p] == color,
            old(self).workers[i as int].status == WorkerStatus::Stopped ==> *final(self) == *old(
                self,
            ),
            (!old(self).cancel && old(self).workers[i as int].status == WorkerStatus::Running)
                ==> final(self).workers[i as int].cursor == old(
                self,
            ).workers[i as int].range.end_lin(old(self).width()),
            (old(self).cancel && old(self).workers[i as int].status == WorkerStatus::Running)
                ==> final(self).workers[i as int].cursor == old(self).workers[i as int].cursor
                + 1,
    {
        while self.workers[i].status == WorkerStatus::Running
            invariant
                self.wf(),
                i < self.workers.len(),
                self.workers.len() == old(self).workers.len(),
                self.fb.width == old(self).fb.width,
                self.fb.height == old(self).fb.height,
                self.cancel == old(self).cancel,
                self.state == old(self).state,
                forall|j: int|
                    0 <= j < old(self).workers.len() && j != i ==> self.workers[j] == old(
                        self,
                    ).workers[j],
                self.workers[i as int].range == old(self).workers[i as int].range,
                old(self).workers[i as int].cursor <= self.workers[i as int].cursor,
                self.done_pixels == old(self).done_pixels + (self.workers[i as int].cursor - old(
                    self,
                ).workers[i as int].cursor),
                self.image().len() == old(self).image().len(),
                forall|p: int|
                    0 <= p < old(self).image().len() && !(old(self).workers[i as int].cursor <= p
                        < self.workers[i as int].cursor) ==> self.image()[p] == old(
                        self,
                    ).image()[p],
                forall|p: int|
                    old(self).workers[i as int].cursor <= p < self.workers[i as int].cursor
                        ==> self.image()[p] == color,
                old(self).workers[i as int].status == WorkerStatus::Stopped ==> *self == *old(
                    self,
                ),
                (old(self).workers[i as int].status == WorkerStatus::Running && !old(self).cancel
                    && self.workers[i as int].status == WorkerStatus::Stopped)
                    ==> self.workers[i as int].cursor == old(
                    self,
                ).workers[i as int].range.end_lin(old(self).width()),
                old(self).cancel ==> (self.workers[i as int].status == WorkerStatus::Running
                    ==> self.workers[i as int].cursor == old(self).workers[i as int].cursor),
                (old(self).workers[i as int].status == WorkerStatus::Running && old(self).cancel
                    && self.workers[i as int].status == WorkerStatus::Stopped)
                    ==> self.workers[i as int].cursor == old(self).workers[i as int].cursor + 1,
            decreases
                    self.workers[i as int].range.end_lin(self.width())
                        - self.workers[i as int].cursor,
        {
            self.step_worker(i, Some(color));
        }
    }

    /// What one worker thread does for its whole slice: draw one random
    /// flat color as the scene's stand-in verdict for every pixel of the
    /// slice, then run the worker to its own termination, observing the
    /// cancellation flag once per pixel.
    pub fn render_thread_run(&mut self, i: usize)
        requires
            old(self).wf(),
            i < old(self).workers.len(),
        ensures
            final(self).wf(),
            final(self).fb.width == old(self).fb.width,
            final(self).fb.height == old(self).fb.height,
            final(self).cancel == old(self).cancel,
            final(self).state == old(self).state,
            final(self).workers.len() == old(self).workers.len(),
            forall|j: int|
                0 <= j < old(self).workers.len() && j != i ==> final(self).workers[j] == old(
                    self,
                ).workers[j],
            final(self).workers[i as int].range == old(self).workers[i as int].range,
            final(self).workers[i as int].status == WorkerStatus::Stopped,
            old(self).workers[i as int].cursor <= final(self).workers[i as int].cursor,
            final(self).done_pixels == old(self).done_pixels + (
            final(self).workers[i as int].cursor - old(self).workers[i as int].cursor),
            final(self).image().len() == old(self).image().len(),
            forall|p: int|
                0 <= p < old(self).image().len() && !(old(self).workers[i as int].cursor <= p
                    < final(self).workers[i as int].cursor) ==> final(self).image()[p] == old(
                    self,
                ).image()[p],
            exists|c: Color|
                c.a == 255 && (forall|p: int|
                    old(self).workers[i as int].cursor <= p < final(self).workers[i as int].cursor
                        ==> #[trigger] final(self).image()[p] == c),
            (!old(self).cancel && old(self).workers[i as int].status == WorkerStatus::Running)
                ==> final(self).workers[i as int].cursor == old(
                self,
            ).workers[i as int].range.end_lin(old(self).width()),
            (old(self).cancel && old(self).workers[i as int].status == WorkerStatus::Running)
                ==> final(self).workers[i as int].cursor == old(self).workers[i as int].cursor
                + 1,
    {
        let color = random_color();
        self.run_worker(i, color);
    }

    /// Requests cooperative cancellation without waiting: it sets the
    /// cancellation flag (once; the flag is monotonic and never cleared)
    /// and moves a running renderer to `Stopping`. Workers observe the
    /// flag at their per-pixel checkpoints. A driver that must not block
    /// calls this and joins the workers later; asking again changes
    /// nothing.
    pub fn request_cancel(&mut self)
        requires
            old(self).wf(),
        ensures
            final(self).wf(),
            final(self).cancel,
            final(self).fb == old(self).fb,
            final(self).workers == old(self).workers,
            final(self).done_pixels == old(self).done_pixels,
            final(self).state == (if old(self).state == RenderState::Running {
                RenderState::Stopping
            } else {
                old(self).state
            }),
            old(self).cancel ==> *final(self) == *old(self),
    {
        if !self.cancel {
            self.cancel = true;
            self.state = RenderState::Stopping;
        }
    }

    /// Tears the renderer down: sets the cancellation flag, waits for
    /// every worker to reach its own termination, and ends `Stopped`,
    /// terminal. The framebuffer, the progress counter and every worker's
    /// cursor keep their values: a cancelled render is a designed
    /// partial-completion state, not an error. Teardown is idempotent: on
    /// a renderer already torn down it changes nothing.
    pub fn teardown(&mut self)
        requires
            old(self).wf(),
        ensures
            final(self).wf(),
            final(self).torn_down(),
            final(self).fb == old(self).fb,
            final(self).done_pixels == old(self).done_pixels,
            final(self).workers.len() == old(self).workers.len(),
            forall|i: int|
                0 <= i < old(self).workers.len() ==> {
                    &&& (#[trigger] final(self).workers[i]).range == old(self).workers[i].range
                    &&& final(self).workers[i].cursor == old(self).workers[i].cursor
                    &&& final(self).workers[i].status == WorkerStatus::Stopped
                },
            old(self).torn_down() ==> *final(self) == *old(self),
    {
        if self.state == RenderState::Stopped {
            return;
        }
        self.cancel = true;
        self.state = RenderState::Stopping;
        let mut i: usize = 0;
        while i < self.workers.len()
            invariant
                i <= self.workers.len(),
                self.fb == old(self).fb,
                self.fb.wf(),
                self.done_pixels == old(self).done_pixels,
                self.cancel,
                self.state == RenderState::Stopping,
                self.workers.len() == old(self).workers.len(),
                self.workers.len() >= 1,
                old(self).wf(),
                forall|j: int|
                    0 <= j < i ==> {
                        &&& (#[trigger] self.workers[j]).range == old(self).workers[j].range
                        &&& self.workers[j].cursor == old(self).workers[j].cursor
                        &&& self.workers[j].status == WorkerStatus::Stopped
                    },
                forall|j: int|
                    i <= j < self.workers.len() ==> #[trigger] self.workers[j] == old(
                        self,
                    ).workers[j],
                forall|j: int|
                    0 <= j < self.workers.len() ==> (#[trigger] self.workers[j]).wf(
                        self.width(),
                        self.height(),
                        self.total_pixels(),
                        self.workers.len() as int,
                        j,
                    ),
                self.done_pixels == total_done(self.workers@, self.width()),
            decreases self.workers.len() - i,
        {
            let w = self.workers[i];
            let w2 = Worker { range: w.range, cursor: w.cursor, status: WorkerStatus::Stopped };
            proof {
                lemma_total_done_update(self.workers@, self.width(), i as int, w2);
            }
            self.workers.set(i, w2);
            i = i + 1;
        }
        self.state = RenderState::Stopped;
    }

    /// Records that worker `i` terminated early without finishing its
    /// range (an abnormal exit the driver observed). Its completed pixels
    /// and the progress counter keep their values; the rest of its range
    /// is simply left incomplete, and no other worker is disturbed.
    pub fn stop_worker(&mut self, i: usize)
        requires
            old(self).wf(),
            i < old(self).workers.len(),
        ensures
            final(self).wf(),
            final(self).fb == old(self).fb,
            final(self).cancel == old(self).cancel,
            final(self).state == old(self).state,
            final(self).done_pixels == old(self).done_pixels,
            final(self).workers.len() == old(self).workers.len(),
            forall|j: int|
                0 <= j < old(self).workers.len() && j != i ==> final(self).workers[j] == old(
                    self,
                ).workers[j],
            final(self).workers[i as int].range == old(self).workers[i as int].range,
            final(self).workers[i as int].cursor == old(self).workers[i as int].cursor,
            final(self).workers[i as int].status == WorkerStatus::Stopped,
    {
        let w = self.workers[i];
        let w2 = Worker { range: w.range, cursor: w.cursor, status: WorkerStatus::Stopped };
        proof {
            lemma_total_done_update(self.workers@, self.width(), i as int, w2);
        }
        self.workers.set(i, w2);
    }

    /// A full-size snapshot of the image: `width * height` entries,
    /// matching `get_image_size`, copied out as a value of its own that no
    /// later write ever mutates. Valid in every state, while rendering is
    /// still in progress as well as after teardown.
    pub fn get_image(&self) -> (img: Vec<Color>)
        requires
            self.wf(),
        ensures
            img@ == self.image(),
            img.len() == self.total_pixels(),
    {
        self.fb.snapshot()
    }

    /// The completed and total pixel counts. The completed count is drawn
    /// from the shared progress counter, equals the pixels actually
    /// written, and never exceeds the total, so the caller's ratio lies in
    /// `[0, 1]`; across repeated polls it never decreases, because every
    /// transition only grows `done_pixels`.
    pub fn get_progress(&self) -> (r: (usize, usize))
        requires
            self.wf(),
        ensures
            r.0 == self.done_pixels,
            r.1 == self.total_pixels(),
            r.0 <= r.1,
    {
        proof {
            lemma_total_done_le(self.workers@, self.width());
            lemma_total_size_full(self.workers@, self.width(), self.total_pixels());
        }
        (self.done_pixels, self.fb.width * self.fb.height)
    }

    /// The image dimensions, fixed for the renderer's lifetime.
    pub fn get_image_size(&self) -> (s: [usize; 2])
        ensures
            s[0] == self.fb.width,
            s[1] == self.fb.height,
    {
        [self.fb.width, self.fb.height]
    }

    /// The 2D coordinate of the pixel worker `i` will write next, or
    /// `None` once the worker has stopped. A driver computes the scene's
    /// color for this coordinate outside the guard, then hands the result
    /// to `step_worker`.
    pub fn current_pixel(&self, i: usize) -> (r: Option<[usize; 2]>)
        requires
            self.wf(),
            i < self.workers.len(),
        ensures
            r is Some <==> self.workers[i as int].status == WorkerStatus::Running,
            match r {
                Some(xy) => {
                    &&& xy[0] < self.width()
                    &&& xy[1] < self.height()
                    &&& lin(xy[0] as int, xy[1] as int, self.width())
                        == self.workers[i as int].cursor
                    &&& self.workers[i as int].range.contains(
                        self.width(),
                        self.workers[i as int].cursor as int,
                    )
                },
                None => true,
            },
    {
        let w = self.workers[i];
        match w.status {
            WorkerStatus::Stopped => None,
            WorkerStatus::Running => {
                proof {
                    assert(self.workers[i as int].wf(
                        self.width(),
                        self.height(),
                        self.total_pixels(),
                        self.workers.len() as int,
                        i as int,
                    ));
                    lemma_mod_division_less_than_divisor(w.cursor as int, self.width());
                    lemma_fundamental_div_mod(w.cursor as int, self.width());
                    lemma_mul_is_commutative(self.width(), w.cursor as int / self.width());
                    lemma_multiply_divide_lt(w.cursor as int, self.width(), self.height());
                }
                Some([w.cursor % self.fb.width, w.cursor / self.fb.width])
            },
        }
    }
}

/// A full pool's assigned ranges sum to exactly the whole image.
proof fn lemma_total_size_full(ws: Seq<Worker>, width: int, total: int)
    requires
        ws.len() >= 1,
        0 <= total,
        forall|j: int|
            0 <= j < ws.len() ==> {
                &&& (#[trigger] ws[j]).range.start_lin(width) == slice_lo(
                    total,
                    ws.len() as int,
                    j,
                )
                &&& ws[j].range.end_lin(width) == slice_lo(total, ws.len() as int, j + 1)
            },
    ensures
        total_size(ws, width) == total,
{
    lemma_total_size_prefix(ws, width, total, ws.len() as int);
    lemma_slice_lo_bounds(total, ws.len() as int, ws.len() as int);
}

proof fn lemma_total_done_complete(ws: Seq<Worker>, width: int)
    requires
        forall|j: int|
            0 <= j < ws.len() ==> (#[trigger] ws[j]).done(width) == ws[j].range.size(width),
    ensures
        total_done(ws, width) == total_size(ws, width),
    decreases ws.len(),
{
    if ws.len() > 0 {
        lemma_total_done_complete(ws.drop_last(), width);
    }
}

/// Natural completion reaches full progress: once every worker has walked
/// its whole slice, the progress counter equals the image's pixel count,
/// so the reported ratio is exactly 1.
pub proof fn lemma_complete_render_full_progress(r: Renderer)
    requires
        r.wf(),
        forall|i: int|
            0 <= i < r.workers.len() ==> (#[trigger] r.workers[i]).cursor
                == r.workers[i].range.end_lin(r.width()),
    ensures
        r.done_pixels == r.total_pixels(),
{
    lemma_total_done_complete(r.workers@, r.width());
    lemma_total_size_full(r.workers@, r.width(), r.total_pixels());
}

} // verus!
