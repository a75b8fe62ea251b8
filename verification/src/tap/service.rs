//! State inside the shell: the taskbar registry, the command window, and the
//! decisions about what is painted.
//!
//! Every brush that the shell painted itself is read before it is replaced, and
//! only a brush that was read is ever put back: restoring what was never read would
//! erase what the shell had painted.

use std::collections::HashSet;

use vstd::prelude::*;
use vstd::string::StringExecFns;

use crate::tap::com::{lower_hex, push_lower_hex, Color};
use crate::tap::protocol::{BrushKind, CommandKind, TapCommand, PROTOCOL_VERSION};

verus! {

/// How many times the delayed re-walk may arm itself. The shell paints the hairline
/// elements seconds after the claim; a bounded number of retries covers that without
/// an immortal timer.
pub const REWALK_MAX_ATTEMPTS: u32 = 15;

/// One-shot timer of the delayed re-walk.
pub const TIMER_REWALK: usize = 1;

/// How long the re-walk waits, in milliseconds.
pub const REWALK_DELAY_MS: u32 = 4000;

/// Blur radius for the acrylic material, as the bits of 30.0. The host does not send
/// a blur amount for acrylic, so the wider radius its look needs is picked here.
pub const ACRYLIC_BLUR_AMOUNT: u32 = 0x41F0_0000;

/// Blur radius when the host asks for none, as the bits of 10.0.
pub const DEFAULT_BLUR_AMOUNT: u32 = 0x4120_0000;

/// The bits of positive infinity: the largest number that is a number.
pub const BLUR_INFINITE: u32 = 0x7F80_0000;

/// Which property one hairline carrier paints through.
#[derive(Clone, Copy, Debug, PartialEq, Eq, Structural)]
pub enum CarrierKind {
    /// A shape's fill: the thin rectangle's fill, which reads as transparent on some
    /// builds.
    RectangleFill,
    /// A shape's stroke: the same rectangle's outline, which is the visible line.
    RectangleStroke,
    /// A border's brush.
    BorderBrush,
    /// A control's border brush: the frame itself, whose template paints it along
    /// the frame's top edge.
    ControlBorderBrush,
}

/// One of the rectangles tracked per taskbar island. The original fill is captured
/// lazily on the first repaint command.
///
/// A missing original after a capture means the shell had not painted the element
/// yet, and restoring means clearing the fill again, which is why the capture needs
/// its own flag.
#[derive(Clone, Copy, Debug, PartialEq, Eq, Structural)]
pub struct ControlInfo {
    pub shape: Option<usize>,
    pub original: Option<usize>,
    pub captured: bool,
}

/// One element the shell may paint the top hairline with, plus its own brush for
/// putting back.
///
/// `captured` means the shell's real brush is held in `original`. A carrier whose
/// brush has not been read yet is left alone: the shell paints some of these elements
/// seconds after the claim, and clearing before that would record "no brush" and
/// make *show* unrecoverable.
#[derive(Clone, Copy, Debug, PartialEq, Eq, Structural)]
pub struct HairlineCarrier {
    pub kind: CarrierKind,
    pub target: usize,
    /// The shell's own brush, captured before the first clear.
    pub original: Option<usize>,
    pub captured: bool,
}

/// One taskbar island.
pub struct Bar {
    /// The number of the island's frame.
    pub frame: u64,
    /// The taskbar window this island belongs to.
    pub taskbar: isize,
    pub background: ControlInfo,
    /// Whether the host wants the top hairline visible, once it has said.
    ///
    /// Remembered rather than only acted on, because the host's command and the
    /// shell's hairline elements are not synchronised: the elements can turn up after
    /// the command that wanted them hidden.
    pub hairline: Option<bool>,
    /// Everything the shell may paint the top hairline with.
    pub hairline_carriers: Vec<HairlineCarrier>,
    pub blur_attached: bool,
}

/// A [`Bar`] as a mathematical value.
#[verifier::ext_equal]
pub ghost struct BarModel {
    pub frame: u64,
    pub taskbar: isize,
    pub background: ControlInfo,
    pub hairline: Option<bool>,
    pub carriers: Seq<HairlineCarrier>,
    pub blur_attached: bool,
}

impl View for Bar {
    type V = BarModel;

    open spec fn view(&self) -> BarModel {
        BarModel {
            frame: self.frame,
            taskbar: self.taskbar,
            background: self.background,
            hairline: self.hairline,
            carriers: self.hairline_carriers@,
            blur_attached: self.blur_attached,
        }
    }
}

/// The registry and the command window's state.
pub struct Service {
    pub bars: Vec<Bar>,
    /// The command window, or zero.
    pub window: isize,
    pub subclassed: HashSet<isize>,
    pub worker_pid: u32,
    /// The window that the re-walk timer runs on, or zero.
    pub rewalk_window: isize,
    /// How many times the delayed re-walk has armed itself.
    pub rewalk_attempts: u32,
}

/// A [`Service`] as a mathematical value.
#[verifier::ext_equal]
pub ghost struct ServiceModel {
    pub bars: Seq<BarModel>,
    pub window: isize,
    pub subclassed: Set<isize>,
    pub worker_pid: u32,
    pub rewalk_window: isize,
    pub rewalk_attempts: u32,
}

pub open spec fn bar_models(bars: Seq<Bar>) -> Seq<BarModel> {
    Seq::new(bars.len(), |i: int| bars[i]@)
}

impl View for Service {
    type V = ServiceModel;

    open spec fn view(&self) -> ServiceModel {
        ServiceModel {
            bars: bar_models(self.bars@),
            window: self.window,
            subclassed: self.subclassed@,
            worker_pid: self.worker_pid,
            rewalk_window: self.rewalk_window,
            rewalk_attempts: self.rewalk_attempts,
        }
    }
}

/// One brush to be written: through which property of which element. A brush of zero
/// clears.
#[derive(Clone, Copy, Debug, PartialEq, Eq, Structural)]
pub struct BrushWrite {
    pub kind: CarrierKind,
    pub target: usize,
    pub brush: usize,
}

/// What [`plan_hairline`] decided. `retry` is set when the wanted state is "hide" but
/// some carrier's brush has not appeared yet, and the apply should be re-run on a
/// timer.
pub struct HairlinePlan {
    pub writes: Vec<BrushWrite>,
    pub retry: bool,
}

/// The brush that was read for carrier `i`; nothing where none was read.
pub open spec fn read_at(reads: Seq<Option<usize>>, i: int) -> Option<usize> {
    if 0 <= i < reads.len() {
        reads[i]
    } else {
        None
    }
}

fn read_of(reads: &Vec<Option<usize>>, i: usize) -> (r: Option<usize>)
    ensures
        r == read_at(reads@, i as int),
{
    if i < reads.len() {
        reads[i]
    } else {
        None
    }
}

/// A missing brush is a brush of zero.
pub open spec fn brush_or_null(brush: Option<usize>) -> usize {
    match brush {
        Some(address) => address,
        None => 0,
    }
}

impl HairlineCarrier {
    /// Is this the carrier for that property of that element?
    pub open spec fn is_for(self, kind: CarrierKind, target: usize) -> bool {
        self.kind == kind && self.target == target
    }

    /// Has its brush to be read before it may be cleared?
    pub open spec fn reads(self, wanted: Option<bool>) -> bool {
        wanted == Some(false) && !self.captured
    }

    /// The carrier after its brush was read, if it was.
    pub open spec fn remembering(self, read: Option<usize>) -> HairlineCarrier {
        if !self.captured && read is Some {
            HairlineCarrier { original: read, captured: true, ..self }
        } else {
            self
        }
    }

    /// The carrier after the wanted state was planned.
    pub open spec fn planned(self, wanted: Option<bool>, read: Option<usize>) -> HairlineCarrier {
        if self.reads(wanted) {
            self.remembering(read)
        } else {
            self
        }
    }

    /// The write that carries out the wanted state, if there is one.
    ///
    /// Showing puts a captured brush back; a carrier that was never cleared already
    /// shows the shell's own state. Hiding clears what has been captured.
    pub open spec fn write(self, wanted: Option<bool>, read: Option<usize>) -> Seq<BrushWrite> {
        match wanted {
            None => Seq::empty(),
            Some(visible) => {
                let after = self.planned(wanted, read);
                if after.captured {
                    seq![
                        BrushWrite {
                            kind: self.kind,
                            target: self.target,
                            brush: if visible {
                                brush_or_null(self.original)
                            } else {
                                0
                            },
                        },
                    ]
                } else {
                    Seq::empty()
                }
            },
        }
    }

    /// Does hiding have to wait for the shell to paint this carrier?
    pub open spec fn waits(self, wanted: Option<bool>, read: Option<usize>) -> bool {
        self.reads(wanted) && read is None
    }
}

/// The carriers after the wanted state was planned.
pub open spec fn planned_carriers(
    carriers: Seq<HairlineCarrier>,
    wanted: Option<bool>,
    reads: Seq<Option<usize>>,
) -> Seq<HairlineCarrier> {
    Seq::new(carriers.len(), |i: int| carriers[i].planned(wanted, read_at(reads, i)))
}

/// The writes of the first carriers, in their order.
pub open spec fn planned_writes(
    carriers: Seq<HairlineCarrier>,
    wanted: Option<bool>,
    reads: Seq<Option<usize>>,
) -> Seq<BrushWrite>
    decreases carriers.len(),
{
    if carriers.len() == 0 {
        Seq::empty()
    } else {
        planned_writes(carriers.drop_last(), wanted, reads) + carriers.last().write(
            wanted,
            read_at(reads, carriers.len() - 1),
        )
    }
}

/// Is one of the carriers still waiting for its paint?
pub open spec fn planned_retry(
    carriers: Seq<HairlineCarrier>,
    wanted: Option<bool>,
    reads: Seq<Option<usize>>,
) -> bool {
    exists|i: int|
        0 <= i < carriers.len() && (#[trigger] carriers[i]).waits(wanted, read_at(reads, i))
}

impl BarModel {
    /// The bar after its wanted hairline state was planned.
    pub open spec fn planned(self, reads: Seq<Option<usize>>) -> BarModel {
        BarModel { carriers: planned_carriers(self.carriers, self.hairline, reads), ..self }
    }

    /// Is there a carrier for that property of that element already?
    pub open spec fn knows(self, kind: CarrierKind, target: usize) -> bool {
        exists|i: int|
            0 <= i < self.carriers.len() && (#[trigger] self.carriers[i]).is_for(kind, target)
    }

    /// The bar with a carrier for that property of that element.
    pub open spec fn with_carrier(self, kind: CarrierKind, target: usize) -> BarModel {
        if self.knows(kind, target) {
            self
        } else {
            BarModel {
                carriers: self.carriers.push(
                    HairlineCarrier { kind, target, original: None, captured: false },
                ),
                ..self
            }
        }
    }

    /// Does a sighting of that element have to be acted on at once? Only the first
    /// one, and only when the host has already said what it wants.
    pub open spec fn acts_on(self, kind: CarrierKind, target: usize) -> bool {
        self.hairline is Some && !self.knows(kind, target)
    }

    /// The bar after a sighting of that element.
    pub open spec fn sighted(
        self,
        kind: CarrierKind,
        target: usize,
        reads: Seq<Option<usize>>,
    ) -> BarModel {
        if self.acts_on(kind, target) {
            self.with_carrier(kind, target).planned(reads)
        } else {
            self.with_carrier(kind, target)
        }
    }

    /// The writes that a sighting of that element calls for.
    pub open spec fn sighting_writes(
        self,
        kind: CarrierKind,
        target: usize,
        reads: Seq<Option<usize>>,
    ) -> Option<(Seq<BrushWrite>, bool)> {
        if self.acts_on(kind, target) {
            let bar = self.with_carrier(kind, target);
            Some(
                (
                    planned_writes(bar.carriers, bar.hairline, reads),
                    planned_retry(bar.carriers, bar.hairline, reads),
                ),
            )
        } else {
            None
        }
    }
}

/// Work out the writes that carry out the remembered hairline state.
///
/// `reads` holds, for each carrier, the shell's current brush where it could be read;
/// it is only looked at where the carrier has none captured. Hiding captures each
/// carrier's real brush the first time it can be read and clears it; showing puts a
/// captured brush back. A carrier that reads as brushless while hiding leaves `retry`
/// set: its paint has not happened yet, and capturing now would lose the brush
/// forever.
pub fn plan_hairline(bar: &mut Bar, reads: &Vec<Option<usize>>) -> (r: HairlinePlan)
    ensures
        final(bar)@ == old(bar)@.planned(reads@),
        r.writes@ == planned_writes(old(bar)@.carriers, old(bar)@.hairline, reads@),
        r.retry == planned_retry(old(bar)@.carriers, old(bar)@.hairline, reads@),
{
    let mut plan = HairlinePlan { writes: Vec::new(), retry: false };
    let ghost before = bar@.carriers;
    let ghost hairline = bar.hairline;
    proof {
        assert(before.take(0) =~= Seq::empty());
    }
    let wanted: bool = match bar.hairline {
        None => {
            proof {
                lemma_no_wish(before, reads@);
                assert(bar@.planned(reads@) =~= bar@);
            }
            return plan;
        },
        Some(wanted) => wanted,
    };
    let count: usize = bar.hairline_carriers.len();
    let mut i: usize = 0;
    while i < count
        invariant
            0 <= i <= count,
            count == before.len(),
            bar@ == (BarModel { carriers: bar@.carriers, ..old(bar)@ }),
            hairline == old(bar)@.hairline,
            hairline == Some(wanted),
            before == old(bar)@.carriers,
            bar@.carriers.len() == count,
            forall|k: int|
                0 <= k < count ==> #[trigger] bar@.carriers[k] == (if k < i {
                    before[k].planned(hairline, read_at(reads@, k))
                } else {
                    before[k]
                }),
            plan.writes@ == planned_writes(before.take(i as int), hairline, reads@),
            plan.retry == planned_retry(before.take(i as int), hairline, reads@),
        decreases count - i,
    {
        let carrier = bar.hairline_carriers[i];
        let ghost done = before.take(i as int);
        let ghost next = before.take(i + 1);
        let ghost writes = plan.writes@;
        proof {
            assert(carrier == before[i as int]);
            assert(next.drop_last() =~= done);
            assert(next.last() == carrier);
            lemma_retry_step(done, carrier, hairline, reads@);
            assert(next =~= done.push(carrier));
        }
        let read = read_of(reads, i);
        if wanted {
            if carrier.captured {
                let brush: usize = match carrier.original {
                    Some(address) => address,
                    None => 0,
                };
                plan.writes.push(
                    BrushWrite { kind: carrier.kind, target: carrier.target, brush },
                );
            }
        } else if carrier.captured {
            plan.writes.push(BrushWrite { kind: carrier.kind, target: carrier.target, brush: 0 });
        } else {
            match read {
                Some(brush) => {
                    bar.hairline_carriers.set(
                        i,
                        HairlineCarrier {
                            kind: carrier.kind,
                            target: carrier.target,
                            original: Some(brush),
                            captured: true,
                        },
                    );
                    plan.writes.push(
                        BrushWrite { kind: carrier.kind, target: carrier.target, brush: 0 },
                    );
                },
                None => {
                    plan.retry = true;
                },
            }
        }
        assert(plan.writes@ =~= writes + carrier.write(hairline, read));
        i = i + 1;
    }
    proof {
        assert(before.take(i as int) =~= before);
        assert(bar@.carriers =~= planned_carriers(before, hairline, reads@));
    }
    plan
}

proof fn lemma_no_wish(carriers: Seq<HairlineCarrier>, reads: Seq<Option<usize>>)
    ensures
        planned_writes(carriers, None, reads) == Seq::<BrushWrite>::empty(),
        !planned_retry(carriers, None, reads),
        planned_carriers(carriers, None, reads) == carriers,
    decreases carriers.len(),
{
    if carriers.len() > 0 {
        lemma_no_wish(carriers.drop_last(), reads);
        assert(planned_writes(carriers, None, reads) =~= Seq::<BrushWrite>::empty());
    }
    assert(planned_carriers(carriers, None, reads) =~= carriers);
}

proof fn lemma_retry_step(
    done: Seq<HairlineCarrier>,
    carrier: HairlineCarrier,
    wanted: Option<bool>,
    reads: Seq<Option<usize>>,
)
    ensures
        planned_retry(done.push(carrier), wanted, reads) == (planned_retry(done, wanted, reads)
            || carrier.waits(wanted, read_at(reads, done.len() as int))),
{
    let next = done.push(carrier);
    if planned_retry(done, wanted, reads) {
        let k = choose|k: int|
            0 <= k < done.len() && (#[trigger] done[k]).waits(wanted, read_at(reads, k));
        assert(next[k].waits(wanted, read_at(reads, k)));
    }
    if carrier.waits(wanted, read_at(reads, done.len() as int)) {
        assert(next[done.len() as int].waits(wanted, read_at(reads, done.len() as int)));
    }
    if planned_retry(next, wanted, reads) {
        let k = choose|k: int|
            0 <= k < next.len() && (#[trigger] next[k]).waits(wanted, read_at(reads, k));
        if k < done.len() {
            assert(done[k].waits(wanted, read_at(reads, k)));
        }
    }
}

/// Hiding a captured carrier and showing it again puts back the brush that the shell
/// had painted it with.
pub proof fn showing_undoes_hiding(
    carrier: HairlineCarrier,
    brush: usize,
    later: Option<usize>,
)
    requires
        !carrier.captured,
    ensures
        ({
            let hidden = carrier.planned(Some(false), Some(brush));
            &&& carrier.write(Some(false), Some(brush)) == seq![
                BrushWrite { kind: carrier.kind, target: carrier.target, brush: 0 },
            ]
            &&& hidden.write(Some(true), later) == seq![
                BrushWrite { kind: carrier.kind, target: carrier.target, brush },
            ]
        }),
{
}

/// What has been captured once is never captured again: the first brush that was read
/// is the one that is put back, however often the state changes.
pub proof fn a_captured_brush_is_kept(
    carrier: HairlineCarrier,
    wanted: Option<bool>,
    read: Option<usize>,
)
    requires
        carrier.captured,
    ensures
        carrier.planned(wanted, read) == carrier,
        carrier.remembering(read) == carrier,
{
}

/// A carrier whose brush was never read is never written to.
pub proof fn an_unread_carrier_is_left_alone(carrier: HairlineCarrier, wanted: Option<bool>)
    requires
        !carrier.captured,
    ensures
        carrier.write(wanted, None) == Seq::<BrushWrite>::empty(),
        carrier.planned(wanted, None) == carrier,
{
}

/// Which bar has this frame?
pub open spec fn frame_index(bars: Seq<BarModel>, frame: u64) -> Option<int>
    decreases bars.len(),
{
    if bars.len() == 0 {
        None
    } else {
        match frame_index(bars.drop_last(), frame) {
            Some(i) => Some(i),
            None => if bars.last().frame == frame {
                Some(bars.len() - 1)
            } else {
                None
            },
        }
    }
}

/// Which bar is the first that belongs to this taskbar window?
pub open spec fn taskbar_index(bars: Seq<BarModel>, taskbar: isize) -> Option<int>
    decreases bars.len(),
{
    if bars.len() == 0 {
        None
    } else {
        match taskbar_index(bars.drop_last(), taskbar) {
            Some(i) => Some(i),
            None => if bars.last().taskbar == taskbar {
                Some(bars.len() - 1)
            } else {
                None
            },
        }
    }
}

/// What is found has the frame that was looked for, and it is not found only where no
/// bar has it.
pub proof fn lemma_frame_index(bars: Seq<BarModel>, frame: u64)
    ensures
        match frame_index(bars, frame) {
            Some(i) => {
                &&& 0 <= i < bars.len()
                &&& bars[i].frame == frame
                &&& forall|k: int| 0 <= k < i ==> bars[k].frame != frame
            },
            None => forall|k: int| 0 <= k < bars.len() ==> bars[k].frame != frame,
        },
    decreases bars.len(),
{
    if bars.len() > 0 {
        lemma_frame_index(bars.drop_last(), frame);
        assert forall|k: int| 0 <= k < bars.len() - 1 implies bars.drop_last()[k] == bars[k] by {}
    }
}

pub proof fn lemma_taskbar_index(bars: Seq<BarModel>, taskbar: isize)
    ensures
        match taskbar_index(bars, taskbar) {
            Some(i) => {
                &&& 0 <= i < bars.len()
                &&& bars[i].taskbar == taskbar
                &&& forall|k: int| 0 <= k < i ==> bars[k].taskbar != taskbar
            },
            None => forall|k: int| 0 <= k < bars.len() ==> bars[k].taskbar != taskbar,
        },
    decreases bars.len(),
{
    if bars.len() > 0 {
        lemma_taskbar_index(bars.drop_last(), taskbar);
        assert forall|k: int| 0 <= k < bars.len() - 1 implies bars.drop_last()[k] == bars[k] by {}
    }
}

impl ServiceModel {
    /// No frame is registered twice.
    pub open spec fn wf(self) -> bool {
        forall|i: int, j: int|
            0 <= i < j < self.bars.len() ==> (#[trigger] self.bars[i]).frame != (
            #[trigger] self.bars[j]).frame
    }

    /// The registry with a frame in it.
    pub open spec fn registered(self, frame: u64, taskbar: isize) -> ServiceModel {
        match frame_index(self.bars, frame) {
            Some(_) => self,
            None => ServiceModel {
                bars: self.bars.push(
                    BarModel {
                        frame,
                        taskbar,
                        background: ControlInfo { shape: None, original: None, captured: false },
                        hairline: None,
                        carriers: Seq::empty(),
                        blur_attached: false,
                    },
                ),
                ..self
            },
        }
    }

    /// The registry without a frame.
    pub open spec fn unregistered(self, frame: u64) -> ServiceModel {
        match frame_index(self.bars, frame) {
            None => self,
            Some(i) => ServiceModel { bars: self.bars.remove(i), ..self },
        }
    }

    /// May the re-walk timer be armed once more?
    pub open spec fn may_arm(self) -> bool {
        self.rewalk_window != 0 && self.rewalk_attempts < REWALK_MAX_ATTEMPTS
    }

    /// The state after asking for the re-walk timer.
    pub open spec fn armed(self) -> ServiceModel {
        if self.rewalk_window == 0 {
            self
        } else {
            ServiceModel {
                rewalk_attempts: if self.rewalk_attempts == u32::MAX {
                    0
                } else {
                    (self.rewalk_attempts + 1) as u32
                },
                ..self
            }
        }
    }

    pub open spec fn with_bar(self, i: int, bar: BarModel) -> ServiceModel {
        ServiceModel { bars: self.bars.update(i, bar), ..self }
    }

    /// The state after a sighting of an element below a frame.
    pub open spec fn sighted(
        self,
        frame: u64,
        kind: CarrierKind,
        target: usize,
        reads: Seq<Option<usize>>,
    ) -> ServiceModel {
        match frame_index(self.bars, frame) {
            None => self,
            Some(i) => {
                let after = self.with_bar(i, self.bars[i].sighted(kind, target, reads));
                match self.bars[i].sighting_writes(kind, target, reads) {
                    Some((_, true)) => after.armed(),
                    _ => after,
                }
            },
        }
    }

    /// The writes that a sighting of an element below a frame calls for, and whether
    /// some carrier is still waiting.
    pub open spec fn sighting(
        self,
        frame: u64,
        kind: CarrierKind,
        target: usize,
        reads: Seq<Option<usize>>,
    ) -> Option<(Seq<BrushWrite>, bool)> {
        match frame_index(self.bars, frame) {
            None => None,
            Some(i) => self.bars[i].sighting_writes(kind, target, reads),
        }
    }

    /// Does a sighting of an element below a frame arm the re-walk timer?
    pub open spec fn sighting_arms(
        self,
        frame: u64,
        kind: CarrierKind,
        target: usize,
        reads: Seq<Option<usize>>,
    ) -> bool {
        match self.sighting(frame, kind, target, reads) {
            Some((_, true)) => self.may_arm(),
            _ => false,
        }
    }
}

/// What a registration asks of the caller: writes to be performed, and the re-walk
/// timer to be armed.
pub struct Registration {
    pub plan: Option<HairlinePlan>,
    pub arm_timer: bool,
}

impl HairlinePlan {
    pub open spec fn model(self) -> (Seq<BrushWrite>, bool) {
        (self.writes@, self.retry)
    }
}

pub open spec fn plan_model(plan: Option<HairlinePlan>) -> Option<(Seq<BrushWrite>, bool)> {
    match plan {
        Some(plan) => Some(plan.model()),
        None => None,
    }
}

/// Two plans as one: the writes of both, and a retry if either wants one.
pub open spec fn joined(
    a: Option<(Seq<BrushWrite>, bool)>,
    b: Option<(Seq<BrushWrite>, bool)>,
) -> Option<(Seq<BrushWrite>, bool)> {
    match (a, b) {
        (Some(x), Some(y)) => Some((x.0 + y.0, x.1 || y.1)),
        (Some(x), None) => Some(x),
        (None, y) => y,
    }
}

impl Service {
    pub open spec fn wf(self) -> bool {
        self@.wf()
    }

    /// Nothing registered, no window, no worker.
    pub fn new() -> (r: Service)
        ensures
            r.wf(),
            r@ == (ServiceModel {
                bars: Seq::empty(),
                window: 0,
                subclassed: Set::empty(),
                worker_pid: 0,
                rewalk_window: 0,
                rewalk_attempts: 0,
            }),
    {
        let service = Service {
            bars: Vec::new(),
            window: 0,
            subclassed: HashSet::new(),
            worker_pid: 0,
            rewalk_window: 0,
            rewalk_attempts: 0,
        };
        assert(service@.bars =~= Seq::empty());
        service
    }

    fn position(&self, frame: u64) -> (r: Option<usize>)
        ensures
            match r {
                Some(i) => frame_index(self@.bars, frame) == Some(i as int) && i < self.bars@.len(),
                None => frame_index(self@.bars, frame) is None,
            },
    {
        let ghost bars = self@.bars;
        let mut i: usize = 0;
        assert(bars.take(0) =~= Seq::empty());
        while i < self.bars.len()
            invariant
                bars == self@.bars,
                0 <= i <= self.bars@.len(),
                frame_index(bars.take(i as int), frame) is None,
            decreases self.bars@.len() - i,
        {
            proof {
                let next = bars.take(i + 1);
                assert(next.drop_last() =~= bars.take(i as int));
                assert(next.last() == self.bars@[i as int]@);
            }
            if self.bars[i].frame == frame {
                proof {
                    lemma_index_in_prefix(bars, frame, i + 1);
                }
                return Some(i);
            }
            i = i + 1;
        }
        assert(bars.take(i as int) =~= bars);
        None
    }
}

proof fn lemma_index_in_prefix(bars: Seq<BarModel>, frame: u64, n: int)
    requires
        0 <= n <= bars.len(),
        frame_index(bars.take(n), frame) is Some,
    ensures
        frame_index(bars, frame) == frame_index(bars.take(n), frame),
    decreases bars.len() - n,
{
    if n < bars.len() {
        let next = bars.take(n + 1);
        assert(next.drop_last() =~= bars.take(n));
        lemma_index_in_prefix(bars, frame, n + 1);
    } else {
        assert(bars.take(n) =~= bars);
    }
}

proof fn lemma_taskbar_in_prefix(bars: Seq<BarModel>, taskbar: isize, n: int)
    requires
        0 <= n <= bars.len(),
        taskbar_index(bars.take(n), taskbar) is Some,
    ensures
        taskbar_index(bars, taskbar) == taskbar_index(bars.take(n), taskbar),
    decreases bars.len() - n,
{
    if n < bars.len() {
        let next = bars.take(n + 1);
        assert(next.drop_last() =~= bars.take(n));
        lemma_taskbar_in_prefix(bars, taskbar, n + 1);
    } else {
        assert(bars.take(n) =~= bars);
    }
}

/// Remember a taskbar frame and the taskbar window hosting it. A frame that is
/// already known stays as it is.
pub fn register_taskbar(svc: &mut Service, frame_handle: u64, taskbar: isize)
    requires
        old(svc).wf(),
    ensures
        final(svc).wf(),
        final(svc)@ == old(svc)@.registered(frame_handle, taskbar),
{
    let ghost before = svc@;
    proof {
        lemma_frame_index(before.bars, frame_handle);
    }
    match svc.position(frame_handle) {
        Some(_) => {},
        None => {
            let bar = Bar {
                frame: frame_handle,
                taskbar,
                background: ControlInfo { shape: None, original: None, captured: false },
                hairline: None,
                hairline_carriers: Vec::new(),
                blur_attached: false,
            };
            assert(bar@.carriers =~= Seq::empty());
            svc.bars.push(bar);
            assert(svc@.bars =~= before.registered(frame_handle, taskbar).bars);
        },
    }
}

/// The claimed frames, for the delayed re-walk.
pub fn frame_handles(svc: &Service) -> (r: Vec<u64>)
    ensures
        r@ == svc@.bars.map_values(|bar: BarModel| bar.frame),
{
    let mut handles: Vec<u64> = Vec::new();
    let mut i: usize = 0;
    while i < svc.bars.len()
        invariant
            0 <= i <= svc.bars@.len(),
            handles@.len() == i,
            forall|k: int| 0 <= k < i ==> #[trigger] handles@[k] == svc@.bars[k].frame,
        decreases svc.bars@.len() - i,
    {
        handles.push(svc.bars[i].frame);
        i = i + 1;
    }
    assert(handles@ =~= svc@.bars.map_values(|bar: BarModel| bar.frame));
    handles
}

/// Are any taskbars registered yet?
pub fn has_bars(svc: &Service) -> (r: bool)
    ensures
        r == (svc@.bars.len() > 0),
{
    svc.bars.len() > 0
}

/// Has this frame already been claimed?
pub fn is_registered(svc: &Service, frame_handle: u64) -> (r: bool)
    ensures
        r == (frame_index(svc@.bars, frame_handle) is Some),
        r == (exists|i: int|
            0 <= i < svc@.bars.len() && (#[trigger] svc@.bars[i]).frame == frame_handle),
{
    proof {
        lemma_frame_index(svc@.bars, frame_handle);
    }
    svc.position(frame_handle).is_some()
}

/// The taskbar windows that have an island registered against them.
pub fn claimed_taskbars(svc: &Service) -> (r: Vec<isize>)
    ensures
        r@ == svc@.bars.map_values(|bar: BarModel| bar.taskbar),
{
    let mut taskbars: Vec<isize> = Vec::new();
    let mut i: usize = 0;
    while i < svc.bars.len()
        invariant
            0 <= i <= svc.bars@.len(),
            taskbars@.len() == i,
            forall|k: int| 0 <= k < i ==> #[trigger] taskbars@[k] == svc@.bars[k].taskbar,
        decreases svc.bars@.len() - i,
    {
        taskbars.push(svc.bars[i].taskbar);
        i = i + 1;
    }
    assert(taskbars@ =~= svc@.bars.map_values(|bar: BarModel| bar.taskbar));
    taskbars
}

/// Is this taskbar window claimed by some bar?
pub open spec fn claimed(bars: Seq<BarModel>, taskbar: isize) -> bool {
    taskbar_index(bars, taskbar) is Some
}

/// Is a taskbar of this session still missing from the registry?
///
/// Asked of the taskbars that are there rather than of whether anything has been
/// claimed: with more than one monitor, the first island claimed must not turn the
/// search for the others off.
pub fn has_unclaimed_taskbar(svc: &Service, windows: &Vec<isize>) -> (r: bool)
    ensures
        r == (exists|i: int|
            0 <= i < windows@.len() && !claimed(svc@.bars, #[trigger] windows@[i])),
{
    let mut i: usize = 0;
    while i < windows.len()
        invariant
            0 <= i <= windows@.len(),
            forall|k: int| 0 <= k < i ==> claimed(svc@.bars, #[trigger] windows@[k]),
        decreases windows@.len() - i,
    {
        if find_bar_index(svc, windows[i]).is_none() {
            return true;
        }
        i = i + 1;
    }
    false
}

fn find_bar_index(svc: &Service, taskbar: isize) -> (r: Option<usize>)
    ensures
        match r {
            Some(i) => taskbar_index(svc@.bars, taskbar) == Some(i as int) && i < svc.bars@.len(),
            None => taskbar_index(svc@.bars, taskbar) is None,
        },
{
    let ghost bars = svc@.bars;
    let mut i: usize = 0;
    assert(bars.take(0) =~= Seq::empty());
    while i < svc.bars.len()
        invariant
            bars == svc@.bars,
            0 <= i <= svc.bars@.len(),
            taskbar_index(bars.take(i as int), taskbar) is None,
        decreases svc.bars@.len() - i,
    {
        proof {
            let next = bars.take(i + 1);
            assert(next.drop_last() =~= bars.take(i as int));
            assert(next.last() == svc.bars@[i as int]@);
        }
        if svc.bars[i].taskbar == taskbar {
            proof {
                lemma_taskbar_in_prefix(bars, taskbar, i + 1);
            }
            return Some(i);
        }
        i = i + 1;
    }
    assert(bars.take(i as int) =~= bars);
    None
}

/// Resolve the host's top-level taskbar window to a registered island.
pub fn find_bar(svc: &Service, taskbar: isize) -> (r: Option<u64>)
    ensures
        r == (match taskbar_index(svc@.bars, taskbar) {
            Some(i) => Some(svc@.bars[i].frame),
            None => None,
        }),
{
    match find_bar_index(svc, taskbar) {
        Some(i) => Some(svc.bars[i].frame),
        None => None,
    }
}

/// Drop a taskbar: its island was torn down.
pub fn unregister_taskbar(svc: &mut Service, frame_handle: u64)
    requires
        old(svc).wf(),
    ensures
        final(svc).wf(),
        final(svc)@ == old(svc)@.unregistered(frame_handle),
        frame_index(final(svc)@.bars, frame_handle) is None,
{
    let ghost before = svc@;
    proof {
        lemma_frame_index(before.bars, frame_handle);
    }
    match svc.position(frame_handle) {
        None => {},
        Some(i) => {
            svc.bars.remove(i);
            proof {
                let after = before.unregistered(frame_handle);
                assert(svc@.bars =~= after.bars);
                assert forall|a: int, b: int| 0 <= a < b < after.bars.len() implies (
                #[trigger] after.bars[a]).frame != (#[trigger] after.bars[b]).frame by {
                    let x = if a < i {
                        a
                    } else {
                        a + 1
                    };
                    let y = if b < i {
                        b
                    } else {
                        b + 1
                    };
                    assert(after.bars[a] == before.bars[x]);
                    assert(after.bars[b] == before.bars[y]);
                }
            }
        },
    }
    proof {
        lemma_frame_index(svc@.bars, frame_handle);
        if frame_index(svc@.bars, frame_handle) is Some {
            let k = frame_index(svc@.bars, frame_handle)->0;
            let i = frame_index(before.bars, frame_handle)->0;
            assert(svc@.bars[k] == before.bars[if k < i {
                k
            } else {
                k + 1
            }]);
        }
    }
}

/// A frame that is registered twice is registered once, for the taskbar it was first
/// seen with.
pub proof fn registering_twice_is_registering_once(
    svc: ServiceModel,
    frame: u64,
    taskbar: isize,
    other: isize,
)
    ensures
        svc.registered(frame, taskbar).registered(frame, other) == svc.registered(frame, taskbar),
{
    lemma_frame_index(svc.bars, frame);
    let after = svc.registered(frame, taskbar);
    lemma_frame_index(after.bars, frame);
    if frame_index(svc.bars, frame) is None {
        assert(after.bars[svc.bars.len() as int].frame == frame);
    }
}

/// Schedule the delayed re-walk: a one-shot timer on the command window. Nothing
/// happens without a window, or once the retries have run out.
pub fn schedule_rewalk(svc: &mut Service) -> (arm: bool)
    ensures
        arm == old(svc)@.may_arm(),
        final(svc)@ == old(svc)@.armed(),
{
    if svc.rewalk_window == 0 {
        return false;
    }
    let attempts: u32 = svc.rewalk_attempts;
    svc.rewalk_attempts = if attempts == u32::MAX {
        0
    } else {
        attempts + 1
    };
    attempts < REWALK_MAX_ATTEMPTS
}

/// Remember one of the taskbar's background rectangles.
pub fn register_taskbar_background(svc: &mut Service, frame_handle: u64, shape: usize)
    requires
        old(svc).wf(),
    ensures
        final(svc).wf(),
        final(svc)@ == (match frame_index(old(svc)@.bars, frame_handle) {
            None => old(svc)@,
            Some(i) => old(svc)@.with_bar(
                i,
                BarModel {
                    background: ControlInfo {
                        shape: Some(shape),
                        ..old(svc)@.bars[i].background
                    },
                    ..old(svc)@.bars[i]
                },
            ),
        }),
{
    let ghost before = svc@;
    proof {
        lemma_frame_index(before.bars, frame_handle);
    }
    match svc.position(frame_handle) {
        None => {},
        Some(i) => {
            let bar = &mut svc.bars[i];
            bar.background.shape = Some(shape);
            proof {
                let after = before.with_bar(
                    i as int,
                    BarModel {
                        background: ControlInfo {
                            shape: Some(shape),
                            ..before.bars[i as int].background
                        },
                        ..before.bars[i as int]
                    },
                );
                assert(svc@.bars =~= after.bars);
                lemma_same_frames(before, svc@);
            }
        },
    }
}

/// A change that keeps every bar's frame keeps the registry well-formed.
proof fn lemma_same_frames(before: ServiceModel, after: ServiceModel)
    requires
        before.wf(),
        after.bars.len() == before.bars.len(),
        forall|i: int|
            0 <= i < after.bars.len() ==> (#[trigger] after.bars[i]).frame
                == before.bars[i].frame,
    ensures
        after.wf(),
{
    assert forall|i: int, j: int| 0 <= i < j < after.bars.len() implies (
    #[trigger] after.bars[i]).frame != (#[trigger] after.bars[j]).frame by {
        assert(before.bars[i].frame != before.bars[j].frame);
    }
}

fn bar_knows(bar: &Bar, kind: CarrierKind, target: usize) -> (r: bool)
    ensures
        r == bar@.knows(kind, target),
{
    let mut i: usize = 0;
    while i < bar.hairline_carriers.len()
        invariant
            0 <= i <= bar.hairline_carriers@.len(),
            forall|k: int|
                0 <= k < i ==> !(#[trigger] bar@.carriers[k]).is_for(kind, target),
        decreases bar.hairline_carriers@.len() - i,
    {
        let carrier = bar.hairline_carriers[i];
        if carrier.kind == kind && carrier.target == target {
            assert(bar@.carriers[i as int].is_for(kind, target));
            return true;
        }
        i = i + 1;
    }
    false
}

fn sight(bar: &mut Bar, kind: CarrierKind, target: usize, reads: &Vec<Option<usize>>) -> (r: Option<
    HairlinePlan,
>)
    ensures
        final(bar)@ == old(bar)@.sighted(kind, target, reads@),
        plan_model(r) == old(bar)@.sighting_writes(kind, target, reads@),
{
    let ghost before = bar@;
    let pending = bar.hairline.is_some();
    let first_sighting = !bar_knows(bar, kind, target);
    if first_sighting {
        bar.hairline_carriers.push(
            HairlineCarrier { kind, target, original: None, captured: false },
        );
    }
    assert(bar@ =~= before.with_carrier(kind, target));
    if pending && first_sighting {
        Some(plan_hairline(bar, reads))
    } else {
        None
    }
}

/// Register one hairline carrier. Returns the plan, if the wanted state is already
/// known: the host may have asked for a hairline state while this element was still
/// unknown, and nothing would ever ask again. Only a *first* sighting applies it:
/// re-applying on every notification would repaint the element on each of the shell's
/// many tree mutations.
pub fn register_carrier(
    svc: &mut Service,
    frame_handle: u64,
    kind: CarrierKind,
    target: usize,
    reads: &Vec<Option<usize>>,
) -> (r: Registration)
    requires
        old(svc).wf(),
    ensures
        final(svc).wf(),
        final(svc)@ == old(svc)@.sighted(frame_handle, kind, target, reads@),
        plan_model(r.plan) == old(svc)@.sighting(frame_handle, kind, target, reads@),
        r.arm_timer == old(svc)@.sighting_arms(frame_handle, kind, target, reads@),
{
    let ghost before = svc@;
    proof {
        lemma_frame_index(before.bars, frame_handle);
    }
    match svc.position(frame_handle) {
        None => Registration { plan: None, arm_timer: false },
        Some(i) => {
            let plan = sight(&mut svc.bars[i], kind, target, reads);
            proof {
                let after = before.with_bar(
                    i as int,
                    before.bars[i as int].sighted(kind, target, reads@),
                );
                assert(svc@.bars =~= after.bars);
                lemma_same_frames(before, svc@);
            }
            let mut arm_timer = false;
            match &plan {
                None => {},
                Some(plan) => {
                    if plan.retry {
                        // The element is here but its paint is not; come back on the
                        // timer.
                        arm_timer = schedule_rewalk(svc);
                    }
                },
            }
            Registration { plan, arm_timer }
        },
    }
}

/// A second sighting of the same element changes nothing and asks for nothing.
pub proof fn a_second_sighting_changes_nothing(
    bar: BarModel,
    kind: CarrierKind,
    target: usize,
    reads: Seq<Option<usize>>,
    later: Seq<Option<usize>>,
)
    ensures
        bar.sighted(kind, target, reads).knows(kind, target),
        bar.sighted(kind, target, reads).sighted(kind, target, later) == bar.sighted(
            kind,
            target,
            reads,
        ),
        bar.sighted(kind, target, reads).sighting_writes(kind, target, later) is None,
{
    let with = bar.with_carrier(kind, target);
    assert(with.knows(kind, target)) by {
        if !bar.knows(kind, target) {
            assert(with.carriers[bar.carriers.len() as int].is_for(kind, target));
        }
    }
    let i = choose|i: int|
        0 <= i < with.carriers.len() && (#[trigger] with.carriers[i]).is_for(kind, target);
    let after = bar.sighted(kind, target, reads);
    assert(after.carriers[i].is_for(kind, target));
}

fn join(a: Option<HairlinePlan>, b: Option<HairlinePlan>) -> (r: Option<HairlinePlan>)
    ensures
        plan_model(r) == joined(plan_model(a), plan_model(b)),
{
    match a {
        None => b,
        Some(first) => match b {
            None => Some(first),
            Some(second) => {
                let mut writes = first.writes;
                let mut more = second.writes;
                writes.append(&mut more);
                Some(HairlinePlan { writes, retry: first.retry || second.retry })
            },
        },
    }
}

/// Remember the taskbar's border rectangle, the hairline along its top edge.
///
/// The rectangle is registered through *both* of its paint channels, its fill and
/// its stroke.
pub fn register_taskbar_border(
    svc: &mut Service,
    frame_handle: u64,
    shape: usize,
    reads: &Vec<Option<usize>>,
) -> (r: Registration)
    requires
        old(svc).wf(),
    ensures
        final(svc).wf(),
        ({
            let filled = old(svc)@.sighted(
                frame_handle,
                CarrierKind::RectangleFill,
                shape,
                reads@,
            );
            &&& final(svc)@ == filled.sighted(
                frame_handle,
                CarrierKind::RectangleStroke,
                shape,
                reads@,
            )
            &&& plan_model(r.plan) == joined(
                old(svc)@.sighting(frame_handle, CarrierKind::RectangleFill, shape, reads@),
                filled.sighting(frame_handle, CarrierKind::RectangleStroke, shape, reads@),
            )
            &&& r.arm_timer == (old(svc)@.sighting_arms(
                frame_handle,
                CarrierKind::RectangleFill,
                shape,
                reads@,
            ) || filled.sighting_arms(frame_handle, CarrierKind::RectangleStroke, shape, reads@))
        }),
{
    let fill = register_carrier(svc, frame_handle, CarrierKind::RectangleFill, shape, reads);
    let stroke = register_carrier(svc, frame_handle, CarrierKind::RectangleStroke, shape, reads);
    let arm_timer = fill.arm_timer || stroke.arm_timer;
    Registration { plan: join(fill.plan, stroke.plan), arm_timer }
}

/// Remember a border element whose brush may paint the hairline.
pub fn register_taskbar_hairline_border(
    svc: &mut Service,
    frame_handle: u64,
    border: usize,
    reads: &Vec<Option<usize>>,
) -> (r: Registration)
    requires
        old(svc).wf(),
    ensures
        final(svc).wf(),
        final(svc)@ == old(svc)@.sighted(frame_handle, CarrierKind::BorderBrush, border, reads@),
        plan_model(r.plan) == old(svc)@.sighting(
            frame_handle,
            CarrierKind::BorderBrush,
            border,
            reads@,
        ),
        r.arm_timer == old(svc)@.sighting_arms(
            frame_handle,
            CarrierKind::BorderBrush,
            border,
            reads@,
        ),
{
    register_carrier(svc, frame_handle, CarrierKind::BorderBrush, border, reads)
}

/// Remember the frame itself: a control, whose template paints its border brush along
/// the frame's edges. The top one is the hairline.
pub fn register_taskbar_frame_control(
    svc: &mut Service,
    frame_handle: u64,
    frame: usize,
    reads: &Vec<Option<usize>>,
) -> (r: Registration)
    requires
        old(svc).wf(),
    ensures
        final(svc).wf(),
        final(svc)@ == old(svc)@.sighted(
            frame_handle,
            CarrierKind::ControlBorderBrush,
            frame,
            reads@,
        ),
        plan_model(r.plan) == old(svc)@.sighting(
            frame_handle,
            CarrierKind::ControlBorderBrush,
            frame,
            reads@,
        ),
        r.arm_timer == old(svc)@.sighting_arms(
            frame_handle,
            CarrierKind::ControlBorderBrush,
            frame,
            reads@,
        ),
{
    register_carrier(svc, frame_handle, CarrierKind::ControlBorderBrush, frame, reads)
}

/// The brushes that were read for the carriers of bar `i`.
pub open spec fn reads_of_bar(reads: Seq<Vec<Option<usize>>>, i: int) -> Seq<Option<usize>> {
    if 0 <= i < reads.len() {
        reads[i]@
    } else {
        Seq::empty()
    }
}

/// A registry after part of a registration with every bar, with what it asks for.
#[verifier::ext_equal]
pub ghost struct Sightings {
    pub svc: ServiceModel,
    pub writes: Option<Seq<BrushWrite>>,
    pub arm_timer: bool,
}

/// An element registered with every bar, through each of `kinds`: the first `n` of
/// these registrations, bar by bar.
pub open spec fn sighted_everywhere(
    svc: ServiceModel,
    kinds: Seq<CarrierKind>,
    target: usize,
    reads: Seq<Vec<Option<usize>>>,
    n: int,
) -> Sightings
    decreases n,
{
    if n <= 0 {
        Sightings { svc, writes: None, arm_timer: false }
    } else {
        let before = sighted_everywhere(svc, kinds, target, reads, n - 1);
        let bar = (n - 1) / kinds.len() as int;
        let frame = svc.bars[bar].frame;
        let kind = kinds[(n - 1) % kinds.len() as int];
        let read = reads_of_bar(reads, bar);
        Sightings {
            svc: before.svc.sighted(frame, kind, target, read),
            writes: match before.svc.sighting(frame, kind, target, read) {
                None => before.writes,
                Some((writes, _)) => match before.writes {
                    None => Some(writes),
                    Some(earlier) => Some(earlier + writes),
                },
            },
            arm_timer: before.arm_timer || before.svc.sighting_arms(frame, kind, target, read),
        }
    }
}

fn register_everywhere(
    svc: &mut Service,
    kinds: &Vec<CarrierKind>,
    target: usize,
    reads: &Vec<Vec<Option<usize>>>,
) -> (r: Registration)
    requires
        old(svc).wf(),
        0 < kinds@.len() <= 2,
    ensures
        final(svc).wf(),
        ({
            let all = sighted_everywhere(
                old(svc)@,
                kinds@,
                target,
                reads@,
                (old(svc)@.bars.len() * kinds@.len()) as int,
            );
            &&& final(svc)@ == all.svc
            &&& r.arm_timer == all.arm_timer
            &&& plan_model(r.plan) == (match all.writes {
                Some(writes) => Some((writes, false)),
                None => None,
            })
        }),
{
    let ghost origin = svc@;
    let handles = frame_handles(svc);
    let mut combined: Option<HairlinePlan> = None;
    let mut arm_timer = false;
    let count: usize = kinds.len();
    let mut bar: usize = 0;
    let nothing: Vec<Option<usize>> = Vec::new();
    while bar < handles.len()
        invariant
            svc.wf(),
            count == kinds@.len(),
            0 < count <= 2,
            handles@.len() == origin.bars.len(),
            forall|k: int| 0 <= k < handles@.len() ==> #[trigger] handles@[k] == origin.bars[k].frame,
            nothing@ == Seq::<Option<usize>>::empty(),
            0 <= bar <= handles@.len(),
            ({
                let all = sighted_everywhere(origin, kinds@, target, reads@, bar * count);
                &&& svc@ == all.svc
                &&& arm_timer == all.arm_timer
                &&& plan_model(combined) == (match all.writes {
                    Some(writes) => Some((writes, false)),
                    None => None,
                })
            }),
        decreases handles@.len() - bar,
    {
        let mut k: usize = 0;
        let read: &Vec<Option<usize>> = if bar < reads.len() {
            &reads[bar]
        } else {
            &nothing
        };
        assert(read@ =~= reads_of_bar(reads@, bar as int));
        assert(bar * count + 0 == bar * count);
        while k < count
            invariant
                svc.wf(),
                count == kinds@.len(),
                0 < count <= 2,
                handles@.len() == origin.bars.len(),
                forall|i: int|
                    0 <= i < handles@.len() ==> #[trigger] handles@[i] == origin.bars[i].frame,
                0 <= bar < handles@.len(),
                0 <= k <= count,
                read@ == reads_of_bar(reads@, bar as int),
                ({
                    let all = sighted_everywhere(origin, kinds@, target, reads@, bar * count + k);
                    &&& svc@ == all.svc
                    &&& arm_timer == all.arm_timer
                    &&& plan_model(combined) == (match all.writes {
                        Some(writes) => Some((writes, false)),
                        None => None,
                    })
                }),
            decreases count - k,
        {
            proof {
                let n = bar * count + k + 1;
                assert(bar * count >= 0) by (nonlinear_arith)
                    requires
                        bar >= 0,
                        count > 0,
                ;
                assert((n - 1) / count as int == bar && (n - 1) % count as int == k)
                    by (nonlinear_arith)
                    requires
                        n - 1 == bar * count + k,
                        0 <= k < count,
                        count > 0,
                ;
            }
            let part = register_carrier(svc, handles[bar], kinds[k], target, read);
            if part.arm_timer {
                arm_timer = true;
            }
            match part.plan {
                None => {},
                Some(found) => {
                    let mut writes = found.writes;
                    combined = match combined {
                        None => Some(HairlinePlan { writes, retry: false }),
                        Some(earlier) => {
                            let mut all = earlier.writes;
                            all.append(&mut writes);
                            Some(HairlinePlan { writes: all, retry: false })
                        },
                    };
                },
            }
            k = k + 1;
        }
        assert((bar + 1) * count == bar * count + count) by (nonlinear_arith);
        bar = bar + 1;
    }
    Registration { plan: combined, arm_timer }
}

/// Remember a frame-wide border found by the delayed re-walk, which has no frame. The
/// border joins the carriers of every registered bar.
pub fn register_frameless_hairline_border(
    svc: &mut Service,
    border: usize,
    reads: &Vec<Vec<Option<usize>>>,
) -> (r: Registration)
    requires
        old(svc).wf(),
    ensures
        final(svc).wf(),
        ({
            let all = sighted_everywhere(
                old(svc)@,
                seq![CarrierKind::BorderBrush],
                border,
                reads@,
                old(svc)@.bars.len() as int,
            );
            &&& final(svc)@ == all.svc
            &&& r.arm_timer == all.arm_timer
            &&& plan_model(r.plan) == (match all.writes {
                Some(writes) => Some((writes, false)),
                None => None,
            })
        }),
{
    let mut kinds: Vec<CarrierKind> = Vec::new();
    kinds.push(CarrierKind::BorderBrush);
    assert(kinds@ =~= seq![CarrierKind::BorderBrush]);
    assert(svc@.bars.len() * 1 == svc@.bars.len());
    register_everywhere(svc, &kinds, border, reads)
}

/// Remember a thin full-width rectangle found by the delayed re-walk: the hairline
/// painter, which had no size and no fill when the claim walk ran.
pub fn register_frameless_hairline_rect(
    svc: &mut Service,
    rect: usize,
    reads: &Vec<Vec<Option<usize>>>,
) -> (r: Registration)
    requires
        old(svc).wf(),
    ensures
        final(svc).wf(),
        ({
            let all = sighted_everywhere(
                old(svc)@,
                seq![CarrierKind::RectangleFill, CarrierKind::RectangleStroke],
                rect,
                reads@,
                (old(svc)@.bars.len() * 2) as int,
            );
            &&& final(svc)@ == all.svc
            &&& r.arm_timer == all.arm_timer
            &&& plan_model(r.plan) == (match all.writes {
                Some(writes) => Some((writes, false)),
                None => None,
            })
        }),
{
    let mut kinds: Vec<CarrierKind> = Vec::new();
    kinds.push(CarrierKind::RectangleFill);
    kinds.push(CarrierKind::RectangleStroke);
    assert(kinds@ =~= seq![CarrierKind::RectangleFill, CarrierKind::RectangleStroke]);
    register_everywhere(svc, &kinds, rect, reads)
}

/// The outcome of performing writes: was any of them accepted?
pub fn commit_hairline(accepted: &Vec<bool>) -> (r: bool)
    ensures
        r == accepted@.contains(true),
{
    let mut any = false;
    let mut i: usize = 0;
    while i < accepted.len()
        invariant
            0 <= i <= accepted@.len(),
            any == accepted@.take(i as int).contains(true),
        decreases accepted@.len() - i,
    {
        proof {
            let done = accepted@.take(i as int);
            let next = accepted@.take(i + 1);
            assert(next =~= done.push(accepted@[i as int]));
            if done.contains(true) {
                let k = done.index_of(true);
                assert(next[k]);
            }
            if accepted@[i as int] {
                assert(next[i as int]);
            }
            if next.contains(true) && !accepted@[i as int] {
                let k = next.index_of(true);
                assert(done[k]);
            }
        }
        any = any || accepted[i];
        i = i + 1;
    }
    assert(accepted@.take(i as int) =~= accepted@);
    any
}

impl ServiceModel {
    /// The state after the host has said what it wants of a taskbar's hairline.
    pub open spec fn hairline_wanted(
        self,
        taskbar: isize,
        visible: bool,
        reads: Seq<Option<usize>>,
    ) -> ServiceModel {
        match taskbar_index(self.bars, taskbar) {
            None => self,
            Some(i) => {
                let wished = BarModel { hairline: Some(visible), ..self.bars[i] };
                let after = self.with_bar(i, wished.planned(reads));
                if planned_retry(wished.carriers, wished.hairline, reads) {
                    after.armed()
                } else {
                    after
                }
            },
        }
    }

    /// The writes that carry that out, and whether some carrier is still waiting.
    pub open spec fn hairline_plan(
        self,
        taskbar: isize,
        visible: bool,
        reads: Seq<Option<usize>>,
    ) -> Option<(Seq<BrushWrite>, bool)> {
        match taskbar_index(self.bars, taskbar) {
            None => None,
            Some(i) => Some(
                (
                    planned_writes(self.bars[i].carriers, Some(visible), reads),
                    planned_retry(self.bars[i].carriers, Some(visible), reads),
                ),
            ),
        }
    }
}

/// Show or hide the hairline along a taskbar's top edge.
///
/// Hiding clears all registered carriers and showing puts their captured brushes back.
/// No plan comes back when the taskbar is not registered. With no carrier to write to,
/// the wanted state stays in the registry and is applied the moment one is registered.
pub fn set_hairline(svc: &mut Service, taskbar: isize, visible: bool, reads: &Vec<Option<usize>>)
    -> (r: Registration)
    requires
        old(svc).wf(),
    ensures
        final(svc).wf(),
        final(svc)@ == old(svc)@.hairline_wanted(taskbar, visible, reads@),
        plan_model(r.plan) == old(svc)@.hairline_plan(taskbar, visible, reads@),
        r.arm_timer == (match old(svc)@.hairline_plan(taskbar, visible, reads@) {
            Some((_, true)) => old(svc)@.may_arm(),
            _ => false,
        }),
{
    let ghost before = svc@;
    proof {
        lemma_taskbar_index(before.bars, taskbar);
    }
    match find_bar_index(svc, taskbar) {
        None => Registration { plan: None, arm_timer: false },
        Some(i) => {
            let plan = wish(&mut svc.bars[i], visible, reads);
            proof {
                let wished = BarModel { hairline: Some(visible), ..before.bars[i as int] };
                let after = before.with_bar(i as int, wished.planned(reads@));
                assert(svc@.bars =~= after.bars);
                lemma_same_frames(before, svc@);
            }
            let arm_timer = if plan.retry {
                schedule_rewalk(svc)
            } else {
                false
            };
            Registration { plan: Some(plan), arm_timer }
        },
    }
}

fn wish(bar: &mut Bar, visible: bool, reads: &Vec<Option<usize>>) -> (r: HairlinePlan)
    ensures
        final(bar)@ == (BarModel { hairline: Some(visible), ..old(bar)@ }).planned(reads@),
        r.writes@ == planned_writes(old(bar)@.carriers, Some(visible), reads@),
        r.retry == planned_retry(old(bar)@.carriers, Some(visible), reads@),
{
    bar.hairline = Some(visible);
    plan_hairline(bar, reads)
}

/// The bars after each one's remembered state was planned again.
pub open spec fn replanned(bars: Seq<BarModel>, reads: Seq<Vec<Option<usize>>>) -> Seq<BarModel> {
    Seq::new(bars.len(), |i: int| bars[i].planned(reads_of_bar(reads, i)))
}

/// The writes of all bars, bar by bar.
pub open spec fn replanned_writes(bars: Seq<BarModel>, reads: Seq<Vec<Option<usize>>>) -> Seq<
    BrushWrite,
>
    decreases bars.len(),
{
    if bars.len() == 0 {
        Seq::empty()
    } else {
        replanned_writes(bars.drop_last(), reads) + planned_writes(
            bars.last().carriers,
            bars.last().hairline,
            reads_of_bar(reads, bars.len() - 1),
        )
    }
}

/// Is a carrier of one of the bars still waiting for its paint?
pub open spec fn replanned_pending(bars: Seq<BarModel>, reads: Seq<Vec<Option<usize>>>) -> bool {
    exists|i: int|
        0 <= i < bars.len() && planned_retry(
            (#[trigger] bars[i]).carriers,
            bars[i].hairline,
            reads_of_bar(reads, i),
        )
}

/// Re-run the pending hairline state for every bar: the writes, and, as `retry`,
/// whether some carrier is still waiting for the shell to paint it.
pub fn retry_pending_hairline(svc: &mut Service, reads: &Vec<Vec<Option<usize>>>) -> (r:
    HairlinePlan)
    requires
        old(svc).wf(),
    ensures
        final(svc).wf(),
        final(svc)@ == (ServiceModel { bars: replanned(old(svc)@.bars, reads@), ..old(svc)@ }),
        r.writes@ == replanned_writes(old(svc)@.bars, reads@),
        r.retry == replanned_pending(old(svc)@.bars, reads@),
{
    let ghost before = svc@;
    let mut plan = HairlinePlan { writes: Vec::new(), retry: false };
    let nothing: Vec<Option<usize>> = Vec::new();
    let count: usize = svc.bars.len();
    let mut i: usize = 0;
    assert(before.bars.take(0) =~= Seq::empty());
    while i < count
        invariant
            0 <= i <= count,
            count == svc.bars@.len(),
            count == before.bars.len(),
            nothing@ == Seq::<Option<usize>>::empty(),
            svc@ == (ServiceModel { bars: svc@.bars, ..before }),
            forall|k: int|
                0 <= k < count ==> #[trigger] svc@.bars[k] == (if k < i {
                    before.bars[k].planned(reads_of_bar(reads@, k))
                } else {
                    before.bars[k]
                }),
            plan.writes@ == replanned_writes(before.bars.take(i as int), reads@),
            plan.retry == replanned_pending(before.bars.take(i as int), reads@),
        decreases count - i,
    {
        let ghost done = before.bars.take(i as int);
        let ghost next = before.bars.take(i + 1);
        let ghost bars = svc@.bars;
        let read: &Vec<Option<usize>> = if i < reads.len() {
            &reads[i]
        } else {
            &nothing
        };
        assert(read@ =~= reads_of_bar(reads@, i as int));
        proof {
            assert(next.drop_last() =~= done);
            assert(next =~= done.push(before.bars[i as int]));
            assert(bars[i as int] == before.bars[i as int]);
            lemma_pending_step(done, before.bars[i as int], reads@);
        }
        let part = plan_hairline(&mut svc.bars[i], read);
        assert(svc@.bars =~= bars.update(
            i as int,
            before.bars[i as int].planned(reads_of_bar(reads@, i as int)),
        ));
        let mut writes = part.writes;
        plan.writes.append(&mut writes);
        if part.retry {
            plan.retry = true;
        }
        i = i + 1;
    }
    proof {
        assert(before.bars.take(i as int) =~= before.bars);
        assert(svc@.bars =~= replanned(before.bars, reads@));
        lemma_same_frames(before, svc@);
    }
    plan
}

proof fn lemma_pending_step(done: Seq<BarModel>, bar: BarModel, reads: Seq<Vec<Option<usize>>>)
    ensures
        replanned_pending(done.push(bar), reads) == (replanned_pending(done, reads)
            || planned_retry(bar.carriers, bar.hairline, reads_of_bar(reads, done.len() as int))),
{
    let next = done.push(bar);
    if replanned_pending(done, reads) {
        let k = choose|k: int|
            0 <= k < done.len() && planned_retry(
                (#[trigger] done[k]).carriers,
                done[k].hairline,
                reads_of_bar(reads, k),
            );
        assert(next[k] == done[k]);
    }
    if planned_retry(bar.carriers, bar.hairline, reads_of_bar(reads, done.len() as int)) {
        assert(next[done.len() as int] == bar);
    }
    if replanned_pending(next, reads) {
        let k = choose|k: int|
            0 <= k < next.len() && planned_retry(
                (#[trigger] next[k]).carriers,
                next[k].hairline,
                reads_of_bar(reads, k),
            );
        if k < done.len() {
            assert(done[k] == next[k]);
        }
    }
}

/// Are these the bits of a number above zero?
pub open spec fn positive(bits: u32) -> bool {
    0 < bits <= BLUR_INFINITE
}

/// The blur radius a command asks for: its own when it is above zero, else the
/// default.
pub open spec fn blur_wanted(bits: u32) -> u32 {
    if positive(bits) {
        bits
    } else {
        DEFAULT_BLUR_AMOUNT
    }
}

/// The radius for the acrylic material: at least its own. Above zero, larger numbers
/// have larger bits.
pub open spec fn acrylic_blur(bits: u32) -> u32 {
    if bits > ACRYLIC_BLUR_AMOUNT {
        bits
    } else {
        ACRYLIC_BLUR_AMOUNT
    }
}

/// What is to be painted: on which rectangle, with what, and how.
#[derive(Clone, Copy, Debug, PartialEq, Eq, Structural)]
pub struct Paint {
    pub shape: usize,
    pub brush: BrushKind,
    pub color: Color,
    /// The blur radius, as the bits of a number above zero.
    pub blur_amount: u32,
}

/// What an appearance command came to.
#[derive(Clone, Copy, Debug, PartialEq, Eq, Structural)]
pub enum Appearance {
    /// No island is registered for that taskbar.
    NoTaskbar,
    /// The background rectangle is not registered yet; the host retries on its own.
    NotReady,
    Ready(Paint),
}

impl BarModel {
    /// The bar after the shell's own brushes were read, right before its first repaint.
    ///
    /// Only a *real* brush is captured for a hairline carrier: a brushless read means
    /// "not painted yet". A missing background fill is captured too: it is a value to
    /// restore to.
    pub open spec fn captured(self, fill: Option<usize>, reads: Seq<Option<usize>>) -> BarModel {
        BarModel {
            background: if self.background.captured {
                self.background
            } else {
                ControlInfo { original: fill, captured: true, ..self.background }
            },
            carriers: Seq::new(
                self.carriers.len(),
                |i: int| self.carriers[i].remembering(read_at(reads, i)),
            ),
            ..self
        }
    }
}

fn capture(bar: &mut Bar, fill: Option<usize>, reads: &Vec<Option<usize>>)
    ensures
        final(bar)@ == old(bar)@.captured(fill, reads@),
{
    let ghost before = bar@;
    if !bar.background.captured {
        bar.background.original = fill;
        bar.background.captured = true;
    }
    let count: usize = bar.hairline_carriers.len();
    let mut i: usize = 0;
    while i < count
        invariant
            0 <= i <= count,
            count == before.carriers.len(),
            bar@.carriers.len() == count,
            bar@ == (BarModel {
                carriers: bar@.carriers,
                background: before.captured(fill, reads@).background,
                ..before
            }),
            forall|k: int|
                0 <= k < count ==> #[trigger] bar@.carriers[k] == (if k < i {
                    before.carriers[k].remembering(read_at(reads@, k))
                } else {
                    before.carriers[k]
                }),
        decreases count - i,
    {
        let carrier = bar.hairline_carriers[i];
        if !carrier.captured {
            match read_of(reads, i) {
                None => {},
                Some(brush) => {
                    bar.hairline_carriers.set(
                        i,
                        HairlineCarrier {
                            kind: carrier.kind,
                            target: carrier.target,
                            original: Some(brush),
                            captured: true,
                        },
                    );
                },
            }
        }
        i = i + 1;
    }
    assert(bar@.carriers =~= before.captured(fill, reads@).carriers);
}

impl ServiceModel {
    /// The state after an appearance command.
    pub open spec fn appearance_set(
        self,
        taskbar: isize,
        fill: Option<usize>,
        reads: Seq<Option<usize>>,
    ) -> ServiceModel {
        match taskbar_index(self.bars, taskbar) {
            None => self,
            Some(i) => if self.bars[i].background.shape is None {
                self
            } else {
                self.with_bar(i, self.bars[i].captured(fill, reads))
            },
        }
    }

    /// What an appearance command comes to.
    pub open spec fn appearance(self, cmd: TapCommand, taskbar: isize) -> Appearance {
        match taskbar_index(self.bars, taskbar) {
            None => Appearance::NoTaskbar,
            Some(i) => match self.bars[i].background.shape {
                None => Appearance::NotReady,
                Some(shape) => Appearance::Ready(
                    Paint {
                        shape,
                        brush: if cmd.brush == BrushKind::Solid.number() {
                            BrushKind::Solid
                        } else if cmd.brush == BrushKind::Acrylic.number() {
                            BrushKind::Acrylic
                        } else {
                            BrushKind::Blur
                        },
                        color: Color::of_argb(cmd.argb),
                        blur_amount: blur_wanted(cmd.blur_amount),
                    },
                ),
            },
        }
    }
}

/// Prepare the paint that an appearance command for `taskbar` asks for.
///
/// The shell's own fill of the background, and the brushes of the hairline carriers,
/// are snapshotted as the restore targets the first time. `fill` is the background's
/// fill as it could be read just now, `reads` the carriers' brushes.
pub fn set_appearance(
    svc: &mut Service,
    cmd: &TapCommand,
    taskbar: isize,
    fill: Option<usize>,
    reads: &Vec<Option<usize>>,
) -> (r: Appearance)
    requires
        old(svc).wf(),
    ensures
        final(svc).wf(),
        final(svc)@ == old(svc)@.appearance_set(taskbar, fill, reads@),
        r == old(svc)@.appearance(*cmd, taskbar),
{
    let ghost before = svc@;
    proof {
        lemma_taskbar_index(before.bars, taskbar);
    }
    let color = Color::from_argb(cmd.argb);
    let brush = BrushKind::from_code(cmd.brush);
    let blur_amount: u32 = if 0 < cmd.blur_amount && cmd.blur_amount <= BLUR_INFINITE {
        cmd.blur_amount
    } else {
        DEFAULT_BLUR_AMOUNT
    };
    match find_bar_index(svc, taskbar) {
        None => Appearance::NoTaskbar,
        Some(i) => match svc.bars[i].background.shape {
            None => Appearance::NotReady,
            Some(shape) => {
                capture(&mut svc.bars[i], fill, reads);
                proof {
                    let after = before.with_bar(
                        i as int,
                        before.bars[i as int].captured(fill, reads@),
                    );
                    assert(svc@.bars =~= after.bars);
                    lemma_same_frames(before, svc@);
                }
                Appearance::Ready(Paint { shape, brush, color, blur_amount })
            },
        },
    }
}

/// A step of painting a background.
#[derive(Clone, Copy, Debug, PartialEq, Eq, Structural)]
pub enum PaintStep {
    /// Mount the blur graph with this radius.
    AttachBlur { blur_amount: u32 },
    /// Take down any blur, then fill with this colour.
    FillSolid { color: Color },
    /// Fill with this colour over the mounted blur.
    Tint { color: Color },
    /// Painted.
    Done,
}

impl Paint {
    /// The first step.
    pub open spec fn first_step(self) -> PaintStep {
        match self.brush {
            BrushKind::Solid => PaintStep::FillSolid { color: self.color },
            BrushKind::Acrylic => PaintStep::AttachBlur {
                blur_amount: acrylic_blur(self.blur_amount),
            },
            BrushKind::Blur => PaintStep::AttachBlur { blur_amount: self.blur_amount },
        }
    }

    /// What follows an attempt to mount the blur: a solid fill when it failed. The
    /// acrylic material is the blur behind and a half-strength tint in front: strong
    /// enough to read as a colour, weak enough to leave the blur visible.
    pub open spec fn next_step(self, attached: bool) -> PaintStep {
        if !attached {
            PaintStep::FillSolid { color: self.color }
        } else if self.brush is Acrylic {
            PaintStep::Tint { color: Color { a: 128, ..self.color } }
        } else {
            PaintStep::Done
        }
    }

    pub fn start(&self) -> (r: PaintStep)
        ensures
            r == self.first_step(),
    {
        match self.brush {
            BrushKind::Solid => PaintStep::FillSolid { color: self.color },
            BrushKind::Acrylic => PaintStep::AttachBlur {
                blur_amount: if self.blur_amount > ACRYLIC_BLUR_AMOUNT {
                    self.blur_amount
                } else {
                    ACRYLIC_BLUR_AMOUNT
                },
            },
            BrushKind::Blur => PaintStep::AttachBlur { blur_amount: self.blur_amount },
        }
    }

    pub fn after_blur(&self, attached: bool) -> (r: PaintStep)
        ensures
            r == self.next_step(attached),
    {
        if !attached {
            return PaintStep::FillSolid { color: self.color };
        }
        match self.brush {
            BrushKind::Acrylic => PaintStep::Tint {
                color: Color { a: 128, r: self.color.r, g: self.color.g, b: self.color.b },
            },
            _ => PaintStep::Done,
        }
    }
}

/// One call of building and mounting the blur graph.
#[derive(Clone, Copy, Debug, PartialEq, Eq, Structural)]
pub enum BlurStep {
    Compositor,
    SourceParameter,
    EffectSource,
    EffectFactory,
    EffectBrush,
    BackdropBrush,
    SetSourceParameter,
    SpriteVisual,
    SetBrush,
    /// A visual of zero size renders nothing, so the sprite is sized to the rectangle;
    /// a size that cannot be read is no failure.
    SetSize,
    SetChildVisual,
}

/// How far the blur graph has got.
#[derive(Clone, Copy, Debug, PartialEq, Eq, Structural)]
pub enum BlurProgress {
    Next(BlurStep),
    Failed,
    /// The graph paints the background now: remember the sprite and clear the shell's
    /// own fill.
    Mounted,
}

impl BlurStep {
    pub open spec fn follows(self) -> BlurProgress {
        match self {
            BlurStep::Compositor => BlurProgress::Next(BlurStep::SourceParameter),
            BlurStep::SourceParameter => BlurProgress::Next(BlurStep::EffectSource),
            BlurStep::EffectSource => BlurProgress::Next(BlurStep::EffectFactory),
            BlurStep::EffectFactory => BlurProgress::Next(BlurStep::EffectBrush),
            BlurStep::EffectBrush => BlurProgress::Next(BlurStep::BackdropBrush),
            BlurStep::BackdropBrush => BlurProgress::Next(BlurStep::SetSourceParameter),
            BlurStep::SetSourceParameter => BlurProgress::Next(BlurStep::SpriteVisual),
            BlurStep::SpriteVisual => BlurProgress::Next(BlurStep::SetBrush),
            BlurStep::SetBrush => BlurProgress::Next(BlurStep::SetSize),
            BlurStep::SetSize => BlurProgress::Next(BlurStep::SetChildVisual),
            BlurStep::SetChildVisual => BlurProgress::Mounted,
        }
    }
}

/// Build the backdrop-blur graph: what comes after a step, given whether its call
/// succeeded. Every step but the sizing is needed.
pub fn attach_blur(step: BlurStep, ok: bool) -> (r: BlurProgress)
    ensures
        r == (if !ok && step != BlurStep::SetSize {
            BlurProgress::Failed
        } else {
            step.follows()
        }),
{
    if !ok {
        match step {
            BlurStep::SetSize => {},
            _ => return BlurProgress::Failed,
        }
    }
    match step {
        BlurStep::Compositor => BlurProgress::Next(BlurStep::SourceParameter),
        BlurStep::SourceParameter => BlurProgress::Next(BlurStep::EffectSource),
        BlurStep::EffectSource => BlurProgress::Next(BlurStep::EffectFactory),
        BlurStep::EffectFactory => BlurProgress::Next(BlurStep::EffectBrush),
        BlurStep::EffectBrush => BlurProgress::Next(BlurStep::BackdropBrush),
        BlurStep::BackdropBrush => BlurProgress::Next(BlurStep::SetSourceParameter),
        BlurStep::SetSourceParameter => BlurProgress::Next(BlurStep::SpriteVisual),
        BlurStep::SpriteVisual => BlurProgress::Next(BlurStep::SetBrush),
        BlurStep::SetBrush => BlurProgress::Next(BlurStep::SetSize),
        BlurStep::SetSize => BlurProgress::Next(BlurStep::SetChildVisual),
        BlurStep::SetChildVisual => BlurProgress::Mounted,
    }
}

/// The bars after a blur was mounted on, or taken off, a background.
pub open spec fn blur_marked(bars: Seq<BarModel>, shape: usize, attached: bool) -> Seq<BarModel> {
    Seq::new(
        bars.len(),
        |i: int|
            if bars[i].background.shape == Some(shape) {
                BarModel { blur_attached: attached, ..bars[i] }
            } else {
                bars[i]
            },
    )
}

/// Remember that a blur was mounted on, or taken off, a background.
pub fn mark_blur(svc: &mut Service, shape: usize, attached: bool)
    requires
        old(svc).wf(),
    ensures
        final(svc).wf(),
        final(svc)@ == (ServiceModel {
            bars: blur_marked(old(svc)@.bars, shape, attached),
            ..old(svc)@
        }),
{
    let ghost before = svc@;
    let count: usize = svc.bars.len();
    let mut i: usize = 0;
    while i < count
        invariant
            0 <= i <= count,
            count == svc.bars@.len(),
            count == before.bars.len(),
            svc@ == (ServiceModel { bars: svc@.bars, ..before }),
            forall|k: int|
                0 <= k < count ==> #[trigger] svc@.bars[k] == (if k < i {
                    blur_marked(before.bars, shape, attached)[k]
                } else {
                    before.bars[k]
                }),
        decreases count - i,
    {
        let ghost bars = svc@.bars;
        let hit = match svc.bars[i].background.shape {
            Some(found) => found == shape,
            None => false,
        };
        assert(bars[i as int] == before.bars[i as int]);
        if hit {
            let bar = &mut svc.bars[i];
            bar.blur_attached = attached;
            assert(svc@.bars =~= bars.update(
                i as int,
                BarModel { blur_attached: attached, ..before.bars[i as int] },
            ));
        }
        i = i + 1;
    }
    proof {
        assert(svc@.bars =~= blur_marked(before.bars, shape, attached));
        lemma_same_frames(before, svc@);
    }
}

/// The writes that hand taskbars back to the shell, collected first and performed
/// afterwards: a write fires a tree callback at once, which asks the registry again.
pub struct RestorePlan {
    /// Background rectangles whose blur visual must be detached.
    pub detach: Vec<usize>,
    /// Hairline carriers, and the shell's brush to put back.
    pub carriers: Vec<BrushWrite>,
    /// Background fills: the rectangle, and the shell's fill to put back.
    pub fills: Vec<(usize, usize)>,
}

/// A [`RestorePlan`] as a mathematical value.
#[verifier::ext_equal]
pub ghost struct RestoreModel {
    pub detach: Seq<usize>,
    pub carriers: Seq<BrushWrite>,
    pub fills: Seq<(usize, usize)>,
}

impl View for RestorePlan {
    type V = RestoreModel;

    open spec fn view(&self) -> RestoreModel {
        RestoreModel {
            detach: self.detach@,
            carriers: self.carriers@,
            fills: self.fills@,
        }
    }
}

impl RestoreModel {
    pub open spec fn nothing() -> RestoreModel {
        RestoreModel { detach: Seq::empty(), carriers: Seq::empty(), fills: Seq::empty() }
    }

    pub open spec fn followed_by(self, other: RestoreModel) -> RestoreModel {
        RestoreModel {
            detach: self.detach + other.detach,
            carriers: self.carriers + other.carriers,
            fills: self.fills + other.fills,
        }
    }
}

/// The writes that put the captured brushes of some carriers back. Only a brush that
/// was read gets written back; a missing original is a value, the shell had no brush
/// to begin with.
pub open spec fn carrier_restores(carriers: Seq<HairlineCarrier>) -> Seq<BrushWrite>
    decreases carriers.len(),
{
    if carriers.len() == 0 {
        Seq::empty()
    } else {
        let last = carriers.last();
        let before = carrier_restores(carriers.drop_last());
        if last.captured {
            before.push(
                BrushWrite {
                    kind: last.kind,
                    target: last.target,
                    brush: brush_or_null(last.original),
                },
            )
        } else {
            before
        }
    }
}

impl BarModel {
    /// What hands this bar back to the shell.
    pub open spec fn restore(self) -> RestoreModel {
        RestoreModel {
            detach: if self.blur_attached && self.background.shape is Some {
                seq![self.background.shape->0]
            } else {
                Seq::empty()
            },
            carriers: carrier_restores(self.carriers),
            fills: if self.background.captured && self.background.shape is Some {
                seq![(self.background.shape->0, brush_or_null(self.background.original))]
            } else {
                Seq::empty()
            },
        }
    }
}

/// Collect what hands one bar back to the shell, resetting the bar's live state.
pub fn plan_restore(bar: &mut Bar, plan: &mut RestorePlan)
    ensures
        final(bar)@ == (BarModel { blur_attached: false, ..old(bar)@ }),
        final(plan)@ == old(plan)@.followed_by(old(bar)@.restore()),
{
    let ghost before = bar@;
    let ghost start = plan@;
    if bar.blur_attached {
        match bar.background.shape {
            None => {},
            Some(shape) => {
                plan.detach.push(shape);
            },
        }
        bar.blur_attached = false;
    }
    let count: usize = bar.hairline_carriers.len();
    let mut i: usize = 0;
    assert(before.carriers.take(0) =~= Seq::empty());
    while i < count
        invariant
            0 <= i <= count,
            count == before.carriers.len(),
            bar@ == (BarModel { blur_attached: false, ..before }),
            plan@.fills == start.fills,
            plan@.detach =~= start.detach + before.restore().detach,
            plan@.carriers =~= start.carriers + carrier_restores(before.carriers.take(i as int)),
        decreases count - i,
    {
        let carrier = bar.hairline_carriers[i];
        proof {
            let next = before.carriers.take(i + 1);
            assert(next.drop_last() =~= before.carriers.take(i as int));
            assert(next.last() == carrier);
        }
        if carrier.captured {
            let brush: usize = match carrier.original {
                Some(address) => address,
                None => 0,
            };
            plan.carriers.push(
                BrushWrite { kind: carrier.kind, target: carrier.target, brush },
            );
        }
        i = i + 1;
    }
    assert(before.carriers.take(i as int) =~= before.carriers);
    if bar.background.captured {
        match bar.background.shape {
            None => {},
            Some(shape) => {
                let brush: usize = match bar.background.original {
                    Some(address) => address,
                    None => 0,
                };
                plan.fills.push((shape, brush));
            },
        }
    }
    assert(plan@ =~= start.followed_by(before.restore()));
}

/// What hands all the bars back, bar by bar.
pub open spec fn restore_of_all(bars: Seq<BarModel>) -> RestoreModel
    decreases bars.len(),
{
    if bars.len() == 0 {
        RestoreModel::nothing()
    } else {
        restore_of_all(bars.drop_last()).followed_by(bars.last().restore())
    }
}

fn empty_restore() -> (r: RestorePlan)
    ensures
        r@ == RestoreModel::nothing(),
{
    let plan = RestorePlan { detach: Vec::new(), carriers: Vec::new(), fills: Vec::new() };
    assert(plan@ =~= RestoreModel::nothing());
    plan
}

/// Hand a taskbar back to the shell's own brushes. `None` when it is not registered.
pub fn restore_taskbar(svc: &mut Service, taskbar: isize) -> (r: Option<RestorePlan>)
    requires
        old(svc).wf(),
    ensures
        final(svc).wf(),
        match taskbar_index(old(svc)@.bars, taskbar) {
            None => r is None && final(svc)@ == old(svc)@,
            Some(i) => {
                &&& r is Some
                &&& r->0@ == old(svc)@.bars[i].restore()
                &&& final(svc)@ == old(svc)@.with_bar(
                    i,
                    BarModel { blur_attached: false, ..old(svc)@.bars[i] },
                )
            },
        },
{
    let ghost before = svc@;
    proof {
        lemma_taskbar_index(before.bars, taskbar);
    }
    match find_bar_index(svc, taskbar) {
        None => None,
        Some(i) => {
            let mut plan = empty_restore();
            plan_restore(&mut svc.bars[i], &mut plan);
            proof {
                let after = before.with_bar(
                    i as int,
                    BarModel { blur_attached: false, ..before.bars[i as int] },
                );
                assert(svc@.bars =~= after.bars);
                lemma_same_frames(before, svc@);
                assert(RestoreModel::nothing().followed_by(before.bars[i as int].restore())
                    =~= before.bars[i as int].restore());
            }
            Some(plan)
        },
    }
}

/// Restore every registered island.
pub fn restore_all(svc: &mut Service) -> (r: RestorePlan)
    requires
        old(svc).wf(),
    ensures
        final(svc).wf(),
        r@ == restore_of_all(old(svc)@.bars),
        final(svc)@ == (ServiceModel {
            bars: old(svc)@.bars.map_values(
                |bar: BarModel| BarModel { blur_attached: false, ..bar },
            ),
            ..old(svc)@
        }),
{
    let ghost before = svc@;
    let mut plan = empty_restore();
    let count: usize = svc.bars.len();
    let mut i: usize = 0;
    assert(before.bars.take(0) =~= Seq::empty());
    while i < count
        invariant
            0 <= i <= count,
            count == svc.bars@.len(),
            count == before.bars.len(),
            svc@ == (ServiceModel { bars: svc@.bars, ..before }),
            plan@ == restore_of_all(before.bars.take(i as int)),
            forall|k: int|
                0 <= k < count ==> #[trigger] svc@.bars[k] == (if k < i {
                    BarModel { blur_attached: false, ..before.bars[k] }
                } else {
                    before.bars[k]
                }),
        decreases count - i,
    {
        let ghost bars = svc@.bars;
        proof {
            let next = before.bars.take(i + 1);
            assert(next.drop_last() =~= before.bars.take(i as int));
            assert(next.last() == before.bars[i as int]);
            assert(bars[i as int] == before.bars[i as int]);
        }
        plan_restore(&mut svc.bars[i], &mut plan);
        assert(svc@.bars =~= bars.update(
            i as int,
            BarModel { blur_attached: false, ..before.bars[i as int] },
        ));
        i = i + 1;
    }
    proof {
        assert(before.bars.take(i as int) =~= before.bars);
        assert(svc@.bars =~= before.bars.map_values(
            |bar: BarModel| BarModel { blur_attached: false, ..bar },
        ));
        lemma_same_frames(before, svc@);
    }
    plan
}

/// One call of performing a restore.
#[derive(Clone, Copy, Debug, PartialEq, Eq, Structural)]
pub enum RestoreOp {
    Detach { shape: usize },
    Write { write: BrushWrite },
    Fill { shape: usize, brush: usize },
}

/// A restore as a list of calls: the blurs come off first, then the carriers get their
/// brushes back, then the backgrounds their fills.
pub open spec fn restore_ops(plan: RestoreModel) -> Seq<RestoreOp> {
    plan.detach.map_values(|shape: usize| RestoreOp::Detach { shape }) + plan.carriers.map_values(
        |write: BrushWrite| RestoreOp::Write { write },
    ) + plan.fills.map_values(
        |fill: (usize, usize)| RestoreOp::Fill { shape: fill.0, brush: fill.1 },
    )
}

/// The calls that perform a restore, in their order.
pub fn perform_restore(plan: &RestorePlan) -> (r: Vec<RestoreOp>)
    ensures
        r@ == restore_ops(plan@),
{
    let mut ops: Vec<RestoreOp> = Vec::new();
    let ghost detaches = plan@.detach.map_values(|shape: usize| RestoreOp::Detach { shape });
    let ghost writes = plan@.carriers.map_values(|write: BrushWrite| RestoreOp::Write { write });
    let mut i: usize = 0;
    while i < plan.detach.len()
        invariant
            0 <= i <= plan.detach@.len(),
            detaches == plan@.detach.map_values(|shape: usize| RestoreOp::Detach { shape }),
            ops@ =~= detaches.take(i as int),
        decreases plan.detach@.len() - i,
    {
        ops.push(RestoreOp::Detach { shape: plan.detach[i] });
        i = i + 1;
    }
    i = 0;
    while i < plan.carriers.len()
        invariant
            0 <= i <= plan.carriers@.len(),
            writes == plan@.carriers.map_values(|write: BrushWrite| RestoreOp::Write { write }),
            ops@ =~= detaches + writes.take(i as int),
        decreases plan.carriers@.len() - i,
    {
        ops.push(RestoreOp::Write { write: plan.carriers[i] });
        i = i + 1;
    }
    let ghost fills = plan@.fills.map_values(
        |fill: (usize, usize)| RestoreOp::Fill { shape: fill.0, brush: fill.1 },
    );
    i = 0;
    while i < plan.fills.len()
        invariant
            0 <= i <= plan.fills@.len(),
            fills == plan@.fills.map_values(
                |fill: (usize, usize)| RestoreOp::Fill { shape: fill.0, brush: fill.1 },
            ),
            ops@ =~= detaches + writes + fills.take(i as int),
        decreases plan.fills@.len() - i,
    {
        let fill = plan.fills[i];
        ops.push(RestoreOp::Fill { shape: fill.0, brush: fill.1 });
        i = i + 1;
    }
    assert(ops@ =~= restore_ops(plan@));
    ops
}

/// A restored background gets the fill back that was there when it was captured: of
/// the brushes read at a later capture none is used.
pub proof fn a_restore_puts_the_first_fill_back(
    bar: BarModel,
    shape: usize,
    fill: Option<usize>,
    reads: Seq<Option<usize>>,
    later_fill: Option<usize>,
    later_reads: Seq<Option<usize>>,
)
    requires
        bar.background == (ControlInfo { shape: Some(shape), original: None, captured: false }),
    ensures
        bar.captured(fill, reads).captured(later_fill, later_reads).restore().fills == seq![
            (shape, brush_or_null(fill)),
        ],
{
}

/// A bar that was never painted is handed back without a single write.
pub proof fn an_unpainted_bar_is_left_alone(bar: BarModel)
    requires
        !bar.blur_attached,
        !bar.background.captured,
        forall|i: int| 0 <= i < bar.carriers.len() ==> !(#[trigger] bar.carriers[i]).captured,
    ensures
        bar.restore() == RestoreModel::nothing(),
{
    lemma_nothing_to_restore(bar.carriers);
    assert(bar.restore() =~= RestoreModel::nothing());
}

proof fn lemma_nothing_to_restore(carriers: Seq<HairlineCarrier>)
    requires
        forall|i: int| 0 <= i < carriers.len() ==> !(#[trigger] carriers[i]).captured,
    ensures
        carrier_restores(carriers) == Seq::<BrushWrite>::empty(),
    decreases carriers.len(),
{
    if carriers.len() > 0 {
        assert forall|i: int| 0 <= i < carriers.drop_last().len() implies !(
        #[trigger] carriers.drop_last()[i]).captured by {
            assert(carriers.drop_last()[i] == carriers[i]);
        }
        lemma_nothing_to_restore(carriers.drop_last());
    }
}

/// What a host command asks for.
#[derive(Clone, Copy, Debug, PartialEq, Eq, Structural)]
pub enum CommandAction {
    /// Not applied: another version, or a command that is not known.
    Reject,
    Appearance,
    Restore,
    RestoreAll,
    Hairline { visible: bool },
}

/// What to do about one host command, and whether the host process is to be watched.
pub fn handle_command(cmd: &TapCommand) -> (r: (CommandAction, bool))
    ensures
        r.0 == (if cmd.version != PROTOCOL_VERSION {
            CommandAction::Reject
        } else if cmd.command == CommandKind::SetAppearance.number() {
            CommandAction::Appearance
        } else if cmd.command == CommandKind::Restore.number() {
            CommandAction::Restore
        } else if cmd.command == CommandKind::RestoreAll.number() {
            CommandAction::RestoreAll
        } else if cmd.command == CommandKind::SetHairline.number() {
            CommandAction::Hairline { visible: cmd.argb != 0 }
        } else {
            CommandAction::Reject
        }),
        r.1 == (r.0 is Appearance || r.0 is Restore || r.0 is Hairline),
{
    if cmd.version != PROTOCOL_VERSION {
        return (CommandAction::Reject, false);
    }
    match CommandKind::from_code(cmd.command) {
        None => {
            assert(cmd.command != CommandKind::SetAppearance.number());
            assert(cmd.command != CommandKind::Restore.number());
            assert(cmd.command != CommandKind::RestoreAll.number());
            assert(cmd.command != CommandKind::SetHairline.number());
            (CommandAction::Reject, false)
        },
        Some(CommandKind::SetAppearance) => (CommandAction::Appearance, true),
        Some(CommandKind::Restore) => (CommandAction::Restore, true),
        Some(CommandKind::RestoreAll) => (CommandAction::RestoreAll, false),
        Some(CommandKind::SetHairline) => (
            CommandAction::Hairline { visible: cmd.argb != 0 },
            true,
        ),
    }
}

/// Watch the host process; when it dies, the taskbars are to be restored. Returns the
/// window to tell, when a new watch has to be started.
pub fn watch_worker(svc: &mut Service, pid: u32) -> (r: Option<isize>)
    ensures
        final(svc)@ == (ServiceModel {
            worker_pid: if pid == 0 {
                old(svc)@.worker_pid
            } else {
                pid
            },
            ..old(svc)@
        }),
        r == (if pid != 0 && old(svc)@.worker_pid != pid && old(svc)@.window != 0 {
            Some(old(svc)@.window)
        } else {
            None
        }),
{
    if pid == 0 {
        return None;
    }
    let already = svc.worker_pid == pid;
    if !already {
        svc.worker_pid = pid;
    }
    if already || svc.window == 0 {
        return None;
    }
    Some(svc.window)
}

/// Does the command window have to be created?
///
/// Asked as soon as the framework is connected, before any taskbar has been claimed:
/// the host looks for this window right after injecting, and gives up on the injection
/// if it is not there.
pub fn ensure_command_window(svc: &Service) -> (create: bool)
    ensures
        create == (svc@.window == 0),
{
    svc.window == 0
}

/// The command window has been created, unless `raw` is zero.
pub fn window_created(svc: &mut Service, raw: isize)
    ensures
        final(svc)@ == (if raw == 0 {
            old(svc)@
        } else {
            ServiceModel { window: raw, rewalk_window: raw, ..old(svc)@ }
        }),
{
    if raw != 0 {
        svc.window = raw;
        svc.rewalk_window = raw;
    }
}

/// A message to the command window, as far as they are told apart.
#[derive(Clone, Copy, Debug, PartialEq, Eq, Structural)]
pub enum TapMessage {
    CopyData,
    RestoreAll,
    Timer { id: usize },
    NcDestroy,
    Other,
}

/// What the command window does about a message.
#[derive(Clone, Copy, Debug, PartialEq, Eq, Structural)]
pub enum TapAction {
    /// Read the command and answer whether it was applied.
    Command,
    RestoreAll,
    /// Stop the timer, walk the frames again and retry what is pending.
    Rewalk,
    /// Hand it to the default procedure.
    Default,
}

/// Handle one message to the command window.
pub fn tap_wndproc(svc: &mut Service, message: TapMessage) -> (r: TapAction)
    ensures
        final(svc)@ == (if message is NcDestroy {
            ServiceModel { window: 0, ..old(svc)@ }
        } else {
            old(svc)@
        }),
        r == (match message {
            TapMessage::CopyData => TapAction::Command,
            TapMessage::RestoreAll => TapAction::RestoreAll,
            TapMessage::Timer { id } if id == TIMER_REWALK => TapAction::Rewalk,
            _ => TapAction::Default,
        }),
{
    match message {
        TapMessage::CopyData => TapAction::Command,
        TapMessage::RestoreAll => TapAction::RestoreAll,
        TapMessage::Timer { id } => if id == TIMER_REWALK {
            TapAction::Rewalk
        } else {
            TapAction::Default
        },
        TapMessage::NcDestroy => {
            svc.window = 0;
            TapAction::Default
        },
        TapMessage::Other => TapAction::Default,
    }
}

/// Is this taskbar window to be subclassed now? Each one is, once.
pub fn ensure_subclass(svc: &mut Service, taskbar: isize) -> (r: bool)
    requires
        old(svc).wf(),
    ensures
        final(svc).wf(),
        r == !old(svc)@.subclassed.contains(taskbar),
        final(svc)@ == (ServiceModel {
            subclassed: old(svc)@.subclassed.insert(taskbar),
            ..old(svc)@
        }),
{
    broadcast use vstd::std_specs::hash::group_hash_axioms;

    svc.subclassed.insert(taskbar)
}

/// Subclassing this taskbar window has failed, so it is to be tried again.
pub fn subclass_failed(svc: &mut Service, taskbar: isize)
    requires
        old(svc).wf(),
    ensures
        final(svc).wf(),
        final(svc)@ == (ServiceModel {
            subclassed: old(svc)@.subclassed.remove(taskbar),
            ..old(svc)@
        }),
{
    broadcast use vstd::std_specs::hash::group_hash_axioms;

    svc.subclassed.remove(&taskbar);
    assert(svc@.subclassed =~= old(svc)@.subclassed.remove(taskbar));
}

/// An address as hexadecimal shows it: negative ones from the top.
pub open spec fn unsigned(value: isize) -> int {
    if value < 0 {
        usize::MAX + 1 + value
    } else {
        value as int
    }
}

/// What the registry holds, in words.
pub open spec fn bars_text(bars: Seq<BarModel>) -> Seq<char>
    decreases bars.len(),
{
    if bars.len() == 0 {
        Seq::empty()
    } else {
        let before = bars_text(bars.drop_last());
        let separated = if bars.len() > 1 {
            before + ", "@
        } else {
            before
        };
        separated + "frame "@ + lower_hex(bars.last().frame as nat) + " -> taskbar 0x"@
            + lower_hex(unsigned(bars.last().taskbar) as nat)
    }
}

/// What the registry holds, for a command that did not match.
pub fn describe_bars(svc: &Service) -> (r: String)
    ensures
        r@ == bars_text(svc@.bars),
{
    let ghost bars = svc@.bars;
    let mut out = String::new();
    let mut i: usize = 0;
    assert(bars.take(0) =~= Seq::empty());
    assert(out@ =~= Seq::empty());
    while i < svc.bars.len()
        invariant
            bars == svc@.bars,
            0 <= i <= svc.bars@.len(),
            out@ == bars_text(bars.take(i as int)),
        decreases svc.bars@.len() - i,
    {
        proof {
            let next = bars.take(i + 1);
            assert(next.drop_last() =~= bars.take(i as int));
            assert(next.last() == svc.bars@[i as int]@);
        }
        if i > 0 {
            out.append(", ");
        }
        out.append("frame ");
        push_lower_hex(&mut out, svc.bars[i].frame);
        out.append(" -> taskbar 0x");
        let taskbar: isize = svc.bars[i].taskbar;
        let address: usize = if taskbar < 0 {
            usize::MAX - (-(taskbar + 1)) as usize
        } else {
            taskbar as usize
        };
        push_lower_hex(&mut out, address as u64);
        i = i + 1;
    }
    assert(bars.take(i as int) =~= bars);
    out
}

/// How many of some carriers have been captured.
pub open spec fn captured_count(carriers: Seq<HairlineCarrier>) -> int
    decreases carriers.len(),
{
    if carriers.len() == 0 {
        0
    } else {
        captured_count(carriers.drop_last()) + (if carriers.last().captured {
            1int
        } else {
            0
        })
    }
}

/// Is the write one of exactly that brush through that carrier? No brush is written as zero.
pub open spec fn puts_back(write: BrushWrite, carrier: HairlineCarrier) -> bool {
    &&& write.kind == carrier.kind
    &&& write.target == carrier.target
    &&& carrier.original matches Some(brush) ==> write.brush == brush
    &&& carrier.original is None ==> write.brush == 0
}

/// Handing a bar back writes to each captured carrier, once and in their order, exactly the
/// brush that was captured from it, and to no other carrier.
pub proof fn every_captured_brush_is_put_back(bar: BarModel)
    ensures
        ({
            let writes = bar.restore().carriers;
            &&& writes.len() == captured_count(bar.carriers)
            &&& forall|i: int|
                0 <= i < bar.carriers.len() && (#[trigger] bar.carriers[i]).captured ==> {
                    let at = captured_count(bar.carriers.take(i));
                    0 <= at < writes.len() && puts_back(writes[at], bar.carriers[i])
                }
        }),
{
    lemma_put_back(bar.carriers);
}

proof fn lemma_put_back(carriers: Seq<HairlineCarrier>)
    ensures
        carrier_restores(carriers).len() == captured_count(carriers),
        forall|i: int|
            0 <= i < carriers.len() && (#[trigger] carriers[i]).captured ==> {
                let at = captured_count(carriers.take(i));
                0 <= at < carrier_restores(carriers).len() && puts_back(
                    carrier_restores(carriers)[at],
                    carriers[i],
                )
            },
    decreases carriers.len(),
{
    if carriers.len() > 0 {
        let before = carriers.drop_last();
        lemma_put_back(before);
        assert forall|i: int|
            0 <= i < carriers.len() && (#[trigger] carriers[i]).captured implies {
            let at = captured_count(carriers.take(i));
            0 <= at < carrier_restores(carriers).len() && puts_back(
                carrier_restores(carriers)[at],
                carriers[i],
            )
        } by {
            assert(carriers.take(i) =~= before.take(i));
            if i < before.len() {
                assert(before[i] == carriers[i]);
            } else {
                assert(before.take(i) =~= before);
            }
        }
    }
}

/// Hiding the hairline of a bar and handing the bar back writes, to every carrier, the brush
/// that was read from it before it was cleared; and hiding clears every one of them.
#[verifier::spinoff_prover]
pub proof fn a_hidden_hairline_is_handed_back(
    bar: BarModel,
    reads: Seq<Option<usize>>,
    brushes: Seq<usize>,
)
    requires
        bar.hairline == Some(false),
        reads.len() == bar.carriers.len(),
        brushes.len() == bar.carriers.len(),
        forall|i: int|
            0 <= i < bar.carriers.len() ==> !(#[trigger] bar.carriers[i]).captured && reads[i]
                == Some(brushes[i]),
    ensures
        ({
            let cleared = planned_writes(bar.carriers, bar.hairline, reads);
            let back = bar.planned(reads).restore().carriers;
            &&& cleared.len() == bar.carriers.len()
            &&& back.len() == bar.carriers.len()
            &&& forall|i: int|
                0 <= i < bar.carriers.len() ==> #[trigger] cleared[i] == (BrushWrite {
                    kind: bar.carriers[i].kind,
                    target: bar.carriers[i].target,
                    brush: 0,
                })
            &&& forall|i: int|
                0 <= i < bar.carriers.len() ==> #[trigger] back[i] == (BrushWrite {
                    kind: bar.carriers[i].kind,
                    target: bar.carriers[i].target,
                    brush: brushes[i],
                })
            &&& !planned_retry(bar.carriers, bar.hairline, reads)
        }),
{
    let hidden = bar.planned(reads);
    lemma_put_back(hidden.carriers);
    assert forall|n: int| 0 <= n <= bar.carriers.len() implies captured_count(
        #[trigger] hidden.carriers.take(n),
    ) == n by {
        lemma_all_captured(hidden.carriers.take(n));
    }
    assert(hidden.carriers.take(bar.carriers.len() as int) =~= hidden.carriers);
    let back = hidden.restore().carriers;
    assert forall|i: int| 0 <= i < bar.carriers.len() implies #[trigger] back[i] == (BrushWrite {
        kind: bar.carriers[i].kind,
        target: bar.carriers[i].target,
        brush: brushes[i],
    }) by {
        assert(hidden.carriers[i].captured);
        assert(captured_count(hidden.carriers.take(i)) == i);
        assert(!bar.carriers[i].captured && reads[i] == Some(brushes[i]));
        assert(puts_back(back[i], hidden.carriers[i]));
    }
    lemma_all_cleared(bar.carriers, reads);
}

proof fn lemma_all_captured(carriers: Seq<HairlineCarrier>)
    requires
        forall|i: int| 0 <= i < carriers.len() ==> (#[trigger] carriers[i]).captured,
    ensures
        captured_count(carriers) == carriers.len(),
    decreases carriers.len(),
{
    if carriers.len() > 0 {
        assert forall|i: int| 0 <= i < carriers.drop_last().len() implies (
        #[trigger] carriers.drop_last()[i]).captured by {
            assert(carriers.drop_last()[i] == carriers[i]);
        }
        lemma_all_captured(carriers.drop_last());
    }
}

proof fn lemma_all_cleared(carriers: Seq<HairlineCarrier>, reads: Seq<Option<usize>>)
    requires
        reads.len() >= carriers.len(),
        forall|i: int|
            0 <= i < carriers.len() ==> !(#[trigger] carriers[i]).captured && reads[i] is Some,
    ensures
        planned_writes(carriers, Some(false), reads).len() == carriers.len(),
        forall|i: int|
            0 <= i < carriers.len() ==> #[trigger] planned_writes(carriers, Some(false), reads)[i]
                == (BrushWrite { kind: carriers[i].kind, target: carriers[i].target, brush: 0 }),
    decreases carriers.len(),
{
    if carriers.len() > 0 {
        let before = carriers.drop_last();
        assert forall|i: int| 0 <= i < before.len() implies !(#[trigger] before[i]).captured
            && reads[i] is Some by {
            assert(before[i] == carriers[i]);
        }
        lemma_all_cleared(before, reads);
        let last = carriers.last();
        assert(carriers[carriers.len() - 1] == last);
        assert(last.write(Some(false), read_at(reads, carriers.len() - 1)).len() == 1);
        assert forall|i: int| 0 <= i < carriers.len() implies #[trigger] planned_writes(
            carriers,
            Some(false),
            reads,
        )[i] == (BrushWrite { kind: carriers[i].kind, target: carriers[i].target, brush: 0 }) by {
            if i < before.len() {
                assert(before[i] == carriers[i]);
                assert(planned_writes(before, Some(false), reads)[i] == (BrushWrite {
                    kind: before[i].kind,
                    target: before[i].target,
                    brush: 0,
                }));
            }
        }
    }
}

/// Which carriers are written to, and with what: hiding clears each one whose brush is held or
/// could be read; showing gives each captured one its own brush back; without a wish nothing
/// is written. There is no other write.
#[verifier::spinoff_prover]
pub proof fn each_write_is_called_for(
    carriers: Seq<HairlineCarrier>,
    wanted: Option<bool>,
    reads: Seq<Option<usize>>,
)
    ensures
        ({
            let writes = planned_writes(carriers, wanted, reads);
            &&& wanted is None ==> writes.len() == 0
            &&& forall|i: int|
                0 <= i < carriers.len() && wanted == Some(false) && ((
                #[trigger] carriers[i]).captured || (i < reads.len() && reads[i] is Some))
                    ==> writes.contains(
                    BrushWrite { kind: carriers[i].kind, target: carriers[i].target, brush: 0 },
                )
            &&& forall|i: int, brush: usize|
                0 <= i < carriers.len() && wanted == Some(true) && (
                #[trigger] carriers[i]).captured && carriers[i].original == Some(brush)
                    ==> #[trigger] writes.contains(
                    BrushWrite { kind: carriers[i].kind, target: carriers[i].target, brush },
                )
            &&& forall|k: int|
                0 <= k < writes.len() ==> exists|i: int|
                    0 <= i < carriers.len() && writes_through(
                        #[trigger] writes[k],
                        #[trigger] carriers[i],
                        wanted,
                        i < reads.len() && reads[i] is Some,
                    )
        }),
    decreases carriers.len(),
{
    let writes = planned_writes(carriers, wanted, reads);
    if carriers.len() > 0 {
        let before = carriers.drop_last();
        let n = before.len() as int;
        let last = carriers.last();
        let head = planned_writes(before, wanted, reads);
        let tail = last.write(wanted, read_at(reads, n));
        each_write_is_called_for(before, wanted, reads);
        assert(writes == head + tail);
        assert forall|i: int|
            0 <= i < carriers.len() && wanted == Some(false) && ((#[trigger] carriers[i]).captured
                || (i < reads.len() && reads[i] is Some)) implies writes.contains(
            BrushWrite { kind: carriers[i].kind, target: carriers[i].target, brush: 0 },
        ) by {
            let write = BrushWrite { kind: carriers[i].kind, target: carriers[i].target, brush: 0 };
            if i < n {
                assert(before[i] == carriers[i]);
                assert(head.contains(write));
                let k = head.index_of(write);
                assert(writes[k] == write);
            } else {
                assert(tail[0] == write);
                assert(writes[head.len() as int] == write);
            }
        }
        assert forall|i: int, brush: usize|
            0 <= i < carriers.len() && wanted == Some(true) && (#[trigger] carriers[i]).captured
                && carriers[i].original == Some(brush) implies #[trigger] writes.contains(
            BrushWrite { kind: carriers[i].kind, target: carriers[i].target, brush },
        ) by {
            let write = BrushWrite { kind: carriers[i].kind, target: carriers[i].target, brush };
            if i < n {
                assert(before[i] == carriers[i]);
                assert(head.contains(write));
                let k = head.index_of(write);
                assert(writes[k] == write);
            } else {
                assert(tail[0] == write);
                assert(writes[head.len() as int] == write);
            }
        }
        assert forall|k: int| 0 <= k < writes.len() implies exists|i: int|
            0 <= i < carriers.len() && writes_through(
                #[trigger] writes[k],
                #[trigger] carriers[i],
                wanted,
                i < reads.len() && reads[i] is Some,
            ) by {
            if k < head.len() {
                assert(writes[k] == head[k]);
                let i = choose|i: int|
                    0 <= i < before.len() && writes_through(
                        head[k],
                        #[trigger] before[i],
                        wanted,
                        i < reads.len() && reads[i] is Some,
                    );
                assert(before[i] == carriers[i]);
            } else {
                assert(writes[k] == tail[k - head.len()]);
                assert(carriers[n] == last);
                assert(writes_through(
                    writes[k],
                    carriers[n],
                    wanted,
                    n < reads.len() && reads[n] is Some,
                ));
            }
        }
    }
}

/// Is the write one that a wish makes through a carrier? `readable` says whether its brush
/// could be read.
pub open spec fn writes_through(
    write: BrushWrite,
    carrier: HairlineCarrier,
    wanted: Option<bool>,
    readable: bool,
) -> bool {
    &&& write.kind == carrier.kind
    &&& write.target == carrier.target
    &&& wanted == Some(false) ==> write.brush == 0 && (carrier.captured || readable)
    &&& wanted == Some(true) ==> carrier.captured && (carrier.original matches Some(brush)
        ==> write.brush == brush)
    &&& wanted is Some
}

/// Hiding waits for the shell exactly while some carrier has neither been captured nor can be
/// read; showing never waits.
pub proof fn hiding_waits_for_the_paint(
    carriers: Seq<HairlineCarrier>,
    wanted: Option<bool>,
    reads: Seq<Option<usize>>,
)
    ensures
        planned_retry(carriers, wanted, reads) <==> wanted == Some(false) && exists|i: int|
            0 <= i < carriers.len() && !(#[trigger] carriers[i]).captured && (i >= reads.len()
                || reads[i] is None),
{
    if wanted == Some(false) && exists|i: int|
        0 <= i < carriers.len() && !(#[trigger] carriers[i]).captured && (i >= reads.len()
            || reads[i] is None) {
        let i = choose|i: int|
            0 <= i < carriers.len() && !(#[trigger] carriers[i]).captured && (i >= reads.len()
                || reads[i] is None);
        assert(carriers[i].waits(wanted, read_at(reads, i)));
    }
}

/// A brush is remembered when it is first read, and only then; hiding reads it before the
/// carrier is cleared, and showing reads nothing.
pub proof fn a_brush_is_read_before_it_is_cleared(
    carrier: HairlineCarrier,
    wanted: Option<bool>,
    brush: usize,
)
    requires
        !carrier.captured,
    ensures
        carrier.planned(Some(false), Some(brush)).captured,
        carrier.planned(Some(false), Some(brush)).original == Some(brush),
        carrier.planned(Some(false), Some(brush)).kind == carrier.kind,
        carrier.planned(Some(false), Some(brush)).target == carrier.target,
        wanted != Some(false) ==> carrier.planned(wanted, Some(brush)) == carrier,
        carrier.remembering(Some(brush)).original == Some(brush),
        carrier.remembering(Some(brush)).captured,
        carrier.remembering(None) == carrier,
{
}

/// What a bar's own part of a restore is: the blur comes off its background if one is on, and
/// the background gets the fill back that was there before it was first painted.
pub proof fn a_background_is_handed_back(bar: BarModel, shape: usize, fill: usize)
    requires
        bar.background.shape == Some(shape),
    ensures
        bar.blur_attached ==> bar.restore().detach == seq![shape],
        !bar.blur_attached ==> bar.restore().detach.len() == 0,
        bar.background.captured && bar.background.original == Some(fill) ==> bar.restore().fills
            == seq![(shape, fill)],
        bar.background.captured && bar.background.original is None ==> bar.restore().fills == seq![
            (shape, 0usize),
        ],
        !bar.background.captured ==> bar.restore().fills.len() == 0,
{
}

/// What is read when a bar is first painted is what is kept to hand it back: the fill of its
/// background, and the brush of every carrier that had one. A later reading changes nothing.
pub proof fn the_first_reading_is_kept(
    bar: BarModel,
    fill: Option<usize>,
    reads: Seq<Option<usize>>,
    i: int,
)
    requires
        0 <= i < bar.carriers.len(),
    ensures
        ({
            let after = bar.captured(fill, reads);
            &&& after.background.captured
            &&& after.background.shape == bar.background.shape
            &&& !bar.background.captured ==> after.background.original == fill
            &&& bar.background.captured ==> after.background.original == bar.background.original
            &&& after.carriers.len() == bar.carriers.len()
            &&& bar.carriers[i].captured ==> after.carriers[i] == bar.carriers[i]
            &&& !bar.carriers[i].captured && i < reads.len() ==> (reads[i] matches Some(brush)
                ==> after.carriers[i] == (HairlineCarrier {
                original: Some(brush),
                captured: true,
                ..bar.carriers[i]
            }))
            &&& !bar.carriers[i].captured && (i >= reads.len() || reads[i] is None)
                ==> after.carriers[i] == bar.carriers[i]
            &&& after.hairline == bar.hairline && after.blur_attached == bar.blur_attached
                && after.frame == bar.frame && after.taskbar == bar.taskbar
        }),
{
}

/// Handing everything back hands every bar back: what each bar needs is in it, bar after bar.
#[verifier::spinoff_prover]
pub proof fn every_bar_is_handed_back(bars: Seq<BarModel>, i: int)
    requires
        0 <= i < bars.len(),
    ensures
        forall|k: int|
            0 <= k < bars[i].restore().carriers.len() ==> restore_of_all(bars).carriers.contains(
                #[trigger] bars[i].restore().carriers[k],
            ),
        forall|k: int|
            0 <= k < bars[i].restore().fills.len() ==> restore_of_all(bars).fills.contains(
                #[trigger] bars[i].restore().fills[k],
            ),
        forall|k: int|
            0 <= k < bars[i].restore().detach.len() ==> restore_of_all(bars).detach.contains(
                #[trigger] bars[i].restore().detach[k],
            ),
    decreases bars.len(),
{
    let all = restore_of_all(bars);
    let before = restore_of_all(bars.drop_last());
    let last = bars.last().restore();
    let one = bars[i].restore();
    if i < bars.len() - 1 {
        assert(bars.drop_last()[i] == bars[i]);
        every_bar_is_handed_back(bars.drop_last(), i);
        assert forall|k: int| 0 <= k < one.carriers.len() implies all.carriers.contains(
            #[trigger] one.carriers[k],
        ) by {
            let j = before.carriers.index_of(one.carriers[k]);
            assert(all.carriers[j] == one.carriers[k]);
        }
        assert forall|k: int| 0 <= k < one.fills.len() implies all.fills.contains(
            #[trigger] one.fills[k],
        ) by {
            let j = before.fills.index_of(one.fills[k]);
            assert(all.fills[j] == one.fills[k]);
        }
        assert forall|k: int| 0 <= k < one.detach.len() implies all.detach.contains(
            #[trigger] one.detach[k],
        ) by {
            let j = before.detach.index_of(one.detach[k]);
            assert(all.detach[j] == one.detach[k]);
        }
    } else {
        assert forall|k: int| 0 <= k < one.carriers.len() implies all.carriers.contains(
            #[trigger] one.carriers[k],
        ) by {
            assert(all.carriers[before.carriers.len() + k] == one.carriers[k]);
        }
        assert forall|k: int| 0 <= k < one.fills.len() implies all.fills.contains(
            #[trigger] one.fills[k],
        ) by {
            assert(all.fills[before.fills.len() + k] == one.fills[k]);
        }
        assert forall|k: int| 0 <= k < one.detach.len() implies all.detach.contains(
            #[trigger] one.detach[k],
        ) by {
            assert(all.detach[before.detach.len() + k] == one.detach[k]);
        }
    }
}

/// A restore is performed in three rounds, each complete and in order: blurs off, carriers,
/// fills.
pub proof fn a_restore_is_performed_in_rounds(plan: RestoreModel, i: int)
    ensures
        ({
            let ops = restore_ops(plan);
            let (d, w, f) = (
                plan.detach.len() as int,
                plan.carriers.len() as int,
                plan.fills.len() as int,
            );
            &&& ops.len() == d + w + f
            &&& 0 <= i < d ==> ops[i] == (RestoreOp::Detach { shape: plan.detach[i] })
            &&& 0 <= i < w ==> ops[d + i] == (RestoreOp::Write { write: plan.carriers[i] })
            &&& 0 <= i < f ==> ops[d + w + i] == (RestoreOp::Fill {
                shape: plan.fills[i].0,
                brush: plan.fills[i].1,
            })
        }),
{
}

/// The host's wish for a hairline is remembered for its own bar and leaves every other bar as
/// it is, and an unknown taskbar changes nothing.
pub proof fn a_wish_is_remembered(
    svc: ServiceModel,
    taskbar: isize,
    visible: bool,
    reads: Seq<Option<usize>>,
    i: int,
)
    requires
        0 <= i < svc.bars.len(),
    ensures
        ({
            let after = svc.hairline_wanted(taskbar, visible, reads);
            let first = forall|k: int| 0 <= k < i ==> (#[trigger] svc.bars[k]).taskbar != taskbar;
            &&& after.bars.len() == svc.bars.len()
            &&& svc.bars[i].taskbar == taskbar && first ==> after.bars[i].hairline == Some(visible)
                && after.bars[i].background == svc.bars[i].background
                && after.bars[i].carriers.len() == svc.bars[i].carriers.len()
                && svc.hairline_plan(taskbar, visible, reads) is Some
            &&& svc.bars[i].taskbar != taskbar ==> after.bars[i] == svc.bars[i]
            &&& after.window == svc.window && after.subclassed == svc.subclassed
                && after.worker_pid == svc.worker_pid && after.rewalk_window == svc.rewalk_window
        }),
{
    lemma_taskbar_index(svc.bars, taskbar);
}

/// A registered frame can be found, for its own taskbar, with nothing painted or wished for; the
/// others stay as they are. A frame that is dropped is found no more, and the others stay.
pub proof fn registering_adds_one_bar(svc: ServiceModel, frame: u64, taskbar: isize)
    requires
        forall|i: int| 0 <= i < svc.bars.len() ==> (#[trigger] svc.bars[i]).frame != frame,
    ensures
        ({
            let after = svc.registered(frame, taskbar);
            let bar = after.bars.last();
            &&& after.bars.len() == svc.bars.len() + 1
            &&& after.bars.drop_last() == svc.bars
            &&& bar.frame == frame && bar.taskbar == taskbar
            &&& bar.hairline is None && bar.carriers.len() == 0 && !bar.blur_attached
            &&& bar.background == (ControlInfo { shape: None, original: None, captured: false })
            &&& after.unregistered(frame) == svc
            &&& svc.unregistered(frame) == svc
        }),
{
    lemma_frame_index(svc.bars, frame);
    let after = svc.registered(frame, taskbar);
    assert(after.bars.drop_last() =~= svc.bars);
    lemma_frame_index(after.bars, frame);
    assert(after.bars[svc.bars.len() as int].frame == frame);
    let at = frame_index(after.bars, frame)->0;
    assert(at == svc.bars.len());
    assert(after.bars.remove(at) =~= svc.bars);
    assert(after.unregistered(frame) =~= svc);
}

/// The re-walk timer is armed fifteen times at most, only where there is a window for it, and
/// each time is counted.
pub proof fn the_rewalk_gives_up(svc: ServiceModel)
    ensures
        svc.may_arm() <==> svc.rewalk_window != 0 && svc.rewalk_attempts < 15,
        svc.may_arm() ==> svc.armed().rewalk_attempts == svc.rewalk_attempts + 1,
        svc.armed().bars == svc.bars,
        svc.armed().window == svc.window,
        svc.armed().rewalk_window == svc.rewalk_window,
        svc.rewalk_window == 0 ==> svc.armed() == svc,
{
}

/// A new element of a bar is cleared at once when the hairline is to be hidden and its brush
/// can be read, and its brush is kept for the restore; before the host has said anything the
/// element is only remembered.
pub proof fn a_late_element_is_hidden_too(
    bar: BarModel,
    kind: CarrierKind,
    target: usize,
    reads: Seq<Option<usize>>,
    brush: usize,
)
    requires
        !bar.knows(kind, target),
        reads.len() == bar.carriers.len() + 1,
        reads.last() == Some(brush),
    ensures
        ({
            let after = bar.sighted(kind, target, reads);
            let last = after.carriers.last();
            &&& after.carriers.len() == bar.carriers.len() + 1
            &&& last.kind == kind && last.target == target
            &&& bar.hairline is None ==> bar.sighting_writes(kind, target, reads) is None
                && !last.captured
            &&& bar.hairline == Some(false) ==> last.captured && last.original == Some(brush)
                && (bar.sighting_writes(kind, target, reads) matches Some(plan) && plan.0.contains(
                BrushWrite { kind, target, brush: 0 },
            ))
            &&& bar.hairline == Some(true) ==> !last.captured
        }),
{
    let with = bar.with_carrier(kind, target);
    let n = bar.carriers.len() as int;
    assert(with.carriers[n] == (HairlineCarrier { kind, target, original: None, captured: false }));
    assert(read_at(reads, n) == Some(brush));
    each_write_is_called_for(with.carriers, with.hairline, reads);
}

/// An appearance command paints the background of its own taskbar, with the brush, the colour
/// and the blur that it carries: brush 0 is a solid one, 1 acrylic and anything else a blur,
/// and a blur that is no number above zero is one of ten.
pub proof fn a_command_paints_what_it_says(
    svc: ServiceModel,
    cmd: TapCommand,
    taskbar: isize,
    i: int,
    shape: usize,
)
    requires
        0 <= i < svc.bars.len(),
        svc.bars[i].taskbar == taskbar,
        svc.bars[i].background.shape == Some(shape),
        forall|k: int| 0 <= k < i ==> (#[trigger] svc.bars[k]).taskbar != taskbar,
    ensures
        svc.appearance(cmd, taskbar) matches Appearance::Ready(paint) && {
            &&& paint.shape == shape
            &&& cmd.brush == 0 ==> paint.brush is Solid
            &&& cmd.brush == 1 ==> paint.brush is Acrylic
            &&& cmd.brush >= 2 ==> paint.brush is Blur
            &&& paint.color.a == cmd.argb / 0x100_0000
            &&& paint.color.r == cmd.argb / 0x1_0000 % 0x100
            &&& paint.color.g == cmd.argb / 0x100 % 0x100
            &&& paint.color.b == cmd.argb % 0x100
            &&& 0 < cmd.blur_amount <= 0x7F80_0000 ==> paint.blur_amount == cmd.blur_amount
            &&& cmd.blur_amount == 0 || cmd.blur_amount > 0x7F80_0000 ==> paint.blur_amount
                == 0x4120_0000
        },
{
    lemma_taskbar_index(svc.bars, taskbar);
}

/// A solid paint is a fill of its colour and mounts no blur. A blur mounts the radius that it
/// was given and leaves it at that; acrylic mounts one of thirty at least and puts the colour
/// in front at half strength. A blur that cannot be mounted becomes a solid fill.
pub proof fn a_paint_takes_its_steps(paint: Paint)
    ensures
        paint.brush is Solid ==> paint.first_step() == (PaintStep::FillSolid { color: paint.color }),
        paint.brush is Blur ==> paint.first_step() == (PaintStep::AttachBlur {
            blur_amount: paint.blur_amount,
        }) && paint.next_step(true) is Done,
        paint.brush is Acrylic ==> (paint.first_step() matches PaintStep::AttachBlur { blur_amount }
            && blur_amount >= 0x41F0_0000 && blur_amount >= paint.blur_amount && (blur_amount
            == 0x41F0_0000 || blur_amount == paint.blur_amount)),
        paint.brush is Acrylic ==> (paint.next_step(true) matches PaintStep::Tint { color } && color.a
            == 128 && color.r == paint.color.r && color.g == paint.color.g && color.b
            == paint.color.b),
        paint.next_step(false) == (PaintStep::FillSolid { color: paint.color }),
{
}

/// The place of a step in building the blur graph.
pub open spec fn step_number(step: BlurStep) -> int {
    match step {
        BlurStep::Compositor => 0,
        BlurStep::SourceParameter => 1,
        BlurStep::EffectSource => 2,
        BlurStep::EffectFactory => 3,
        BlurStep::EffectBrush => 4,
        BlurStep::BackdropBrush => 5,
        BlurStep::SetSourceParameter => 6,
        BlurStep::SpriteVisual => 7,
        BlurStep::SetBrush => 8,
        BlurStep::SetSize => 9,
        BlurStep::SetChildVisual => 10,
    }
}

/// The blur graph is built one step after the other, and it is mounted with the last of them
/// and not before.
pub proof fn a_blur_is_mounted_last(step: BlurStep)
    ensures
        step_number(step) < 10 ==> (step.follows() matches BlurProgress::Next(next) && step_number(
            next,
        ) == step_number(step) + 1),
        step_number(step) == 10 ==> step.follows() is Mounted,
{
}

/// A blur that goes on or comes off is noted on the bars whose background it is on, and on no
/// others.
pub proof fn a_blur_is_noted_where_it_is(
    bars: Seq<BarModel>,
    shape: usize,
    attached: bool,
    i: int,
)
    requires
        0 <= i < bars.len(),
    ensures
        ({
            let after = blur_marked(bars, shape, attached);
            &&& after.len() == bars.len()
            &&& bars[i].background.shape == Some(shape) ==> after[i] == (BarModel {
                blur_attached: attached,
                ..bars[i]
            })
            &&& bars[i].background.shape != Some(shape) ==> after[i] == bars[i]
        }),
{
}

/// Every bar is told by its frame and its taskbar, one after the other.
pub proof fn a_registry_is_told_bar_by_bar(bars: Seq<BarModel>, bar: BarModel)
    ensures
        bars_text(Seq::empty()).len() == 0,
        ({
            let tail = "frame "@ + lower_hex(bar.frame as nat) + " -> taskbar 0x"@ + lower_hex(
                unsigned(bar.taskbar) as nat,
            );
            &&& bars.len() == 0 ==> bars_text(bars.push(bar)) == tail
            &&& bars.len() > 0 ==> bars_text(bars.push(bar)) == bars_text(bars) + ", "@ + tail
        }),
{
    assert(bars.push(bar).drop_last() =~= bars);
    let tail = "frame "@ + lower_hex(bar.frame as nat) + " -> taskbar 0x"@ + lower_hex(
        unsigned(bar.taskbar) as nat,
    );
    if bars.len() == 0 {
        assert(bars_text(bars) =~= Seq::<char>::empty());
        assert(bars_text(bars.push(bar)) =~= tail);
    } else {
        assert(bars_text(bars.push(bar)) =~= bars_text(bars) + ", "@ + tail);
    }
}

/// What a bar's remembered wish comes to again is what it came to for that bar alone: the
/// writes of all bars are those of each, one bar after the other, and something is pending
/// while it is for one of them.
pub proof fn a_retry_goes_bar_by_bar(
    bars: Seq<BarModel>,
    bar: BarModel,
    reads: Seq<Vec<Option<usize>>>,
)
    ensures
        ({
            let all = bars.push(bar);
            let n = bars.len() as int;
            let own = if n < reads.len() {
                reads[n]@
            } else {
                Seq::<Option<usize>>::empty()
            };
            &&& replanned(all, reads).len() == n + 1
            &&& replanned(all, reads)[n] == bar.planned(own)
            &&& replanned(all, reads).drop_last() == replanned(bars, reads)
            &&& replanned_writes(all, reads) == replanned_writes(bars, reads) + planned_writes(
                bar.carriers,
                bar.hairline,
                own,
            )
            &&& replanned_pending(all, reads) <==> replanned_pending(bars, reads) || planned_retry(
                bar.carriers,
                bar.hairline,
                own,
            )
        }),
{
    let all = bars.push(bar);
    assert(all.drop_last() =~= bars);
    assert(replanned(all, reads).drop_last() =~= replanned(bars, reads));
    lemma_pending_step(bars, bar, reads);
}

proof fn lemma_still_known(
    bar: BarModel,
    kind: CarrierKind,
    target: usize,
    reads: Seq<Option<usize>>,
    other: CarrierKind,
    element: usize,
)
    requires
        bar.knows(other, element),
    ensures
        bar.sighted(kind, target, reads).knows(other, element),
{
    let i = choose|i: int|
        0 <= i < bar.carriers.len() && (#[trigger] bar.carriers[i]).is_for(other, element);
    let with = bar.with_carrier(kind, target);
    assert(with.carriers[i] == bar.carriers[i]);
    let after = bar.sighted(kind, target, reads);
    assert(after.carriers[i].is_for(other, element));
}

/// An element that the re-walk found without a frame joins the carriers of every bar, through
/// each of its paint channels.
#[verifier::spinoff_prover]
pub proof fn a_frameless_element_joins_every_bar(
    svc: ServiceModel,
    kinds: Seq<CarrierKind>,
    target: usize,
    reads: Seq<Vec<Option<usize>>>,
    n: int,
    i: int,
)
    requires
        svc.wf(),
        kinds.len() > 0,
        0 <= n <= svc.bars.len() * kinds.len(),
        0 <= i < svc.bars.len(),
    ensures
        ({
            let after = sighted_everywhere(svc, kinds, target, reads, n).svc;
            &&& after.bars.len() == svc.bars.len()
            &&& after.bars[i].frame == svc.bars[i].frame
            &&& after.bars[i].taskbar == svc.bars[i].taskbar
            &&& after.bars[i].hairline == svc.bars[i].hairline
            &&& after.bars[i].background == svc.bars[i].background
            &&& forall|k: int|
                0 <= k < kinds.len() && i * kinds.len() + k < n ==> after.bars[i].knows(
                    #[trigger] kinds[k],
                    target,
                )
        }),
    decreases n,
{
    if n > 0 {
        let count = kinds.len() as int;
        let before = sighted_everywhere(svc, kinds, target, reads, n - 1).svc;
        let bar = (n - 1) / count;
        let part = (n - 1) % count;
        let bars = svc.bars.len() as int;
        assert(n - 1 == bar * count + part && 0 <= part < count && 0 <= bar < bars)
            by (nonlinear_arith)
            requires
                bar == (n - 1) / count,
                part == (n - 1) % count,
                0 <= n - 1 < bars * count,
                count > 0,
        ;
        a_frameless_element_joins_every_bar(svc, kinds, target, reads, n - 1, i);
        a_frameless_element_joins_every_bar(svc, kinds, target, reads, n - 1, bar);
        let frame = svc.bars[bar].frame;
        lemma_frame_index(before.bars, frame);
        assert(before.bars[bar].frame == frame);
        let at = frame_index(before.bars, frame)->0;
        a_frameless_element_joins_every_bar(svc, kinds, target, reads, n - 1, at);
        assert(at == bar) by {
            if at != bar {
                assert(svc.bars[at].frame == svc.bars[bar].frame);
                if at < bar {
                    assert(svc.bars[at].frame != svc.bars[bar].frame);
                } else {
                    assert(svc.bars[bar].frame != svc.bars[at].frame);
                }
            }
        }
        let kind = kinds[part];
        let read = reads_of_bar(reads, bar);
        let after = before.sighted(frame, kind, target, read);
        assert(after.bars == before.bars.update(bar, before.bars[bar].sighted(kind, target, read)));
        a_second_sighting_changes_nothing(before.bars[bar], kind, target, read, read);
        assert forall|k: int| 0 <= k < count && i * count + k < n implies after.bars[i].knows(
            #[trigger] kinds[k],
            target,
        ) by {
            if i * count + k < n - 1 {
                assert(before.bars[i].knows(kinds[k], target));
                if i == bar {
                    lemma_still_known(before.bars[i], kind, target, read, kinds[k], target);
                }
            } else {
                assert(i == bar && k == part) by (nonlinear_arith)
                    requires
                        i * count + k == bar * count + part,
                        0 <= k < count,
                        0 <= part < count,
                ;
            }
        }
    }
}

/// Two plans are one after the other, and wait if either does; no plan adds nothing.
pub proof fn two_plans_are_joined(
    a: (Seq<BrushWrite>, bool),
    b: (Seq<BrushWrite>, bool),
)
    ensures
        joined(Some(a), Some(b)) == Some((a.0 + b.0, a.1 || b.1)),
        joined(Some(a), None) == Some(a),
        joined(None, Some(b)) == Some(b),
        joined(None, None) is None,
{
}

/// A taskbar is found by its window: the first bar that belongs to it, and none where no bar
/// does. A frame is found in the same way.
pub proof fn a_bar_is_found_by_its_window(bars: Seq<BarModel>, taskbar: isize, frame: u64, i: int)
    requires
        0 <= i < bars.len(),
    ensures
        bars[i].taskbar == taskbar && (forall|k: int|
            0 <= k < i ==> (#[trigger] bars[k]).taskbar != taskbar) ==> taskbar_index(bars, taskbar)
            == Some(i),
        bars[i].frame == frame && (forall|k: int|
            0 <= k < i ==> (#[trigger] bars[k]).frame != frame) ==> frame_index(bars, frame)
            == Some(i),
        bars[i].taskbar == taskbar ==> claimed(bars, taskbar),
        (forall|k: int| 0 <= k < bars.len() ==> (#[trigger] bars[k]).taskbar != taskbar)
            ==> !claimed(bars, taskbar),
{
    lemma_taskbar_index(bars, taskbar);
    lemma_frame_index(bars, frame);
}

/// The first paint of a taskbar keeps what the shell had painted, for its own bar alone; a bar
/// whose background is not known yet, and an unknown taskbar, are left as they are.
pub proof fn a_first_paint_keeps_what_was_there(
    svc: ServiceModel,
    taskbar: isize,
    fill: Option<usize>,
    reads: Seq<Option<usize>>,
    i: int,
)
    requires
        0 <= i < svc.bars.len(),
    ensures
        ({
            let after = svc.appearance_set(taskbar, fill, reads);
            let first = forall|k: int| 0 <= k < i ==> (#[trigger] svc.bars[k]).taskbar != taskbar;
            &&& after.bars.len() == svc.bars.len()
            &&& svc.bars[i].taskbar != taskbar ==> after.bars[i] == svc.bars[i]
            &&& svc.bars[i].taskbar == taskbar && first && svc.bars[i].background.shape is None
                ==> after == svc
            &&& svc.bars[i].taskbar == taskbar && first && svc.bars[i].background.shape is Some
                ==> after.bars[i].background.captured && (!svc.bars[i].background.captured
                ==> after.bars[i].background.original == fill)
        }),
{
    lemma_taskbar_index(svc.bars, taskbar);
}

/// A sighting below a frame concerns the bar of that frame and no other, and an unknown frame
/// changes nothing. The timer is armed when the bar has to wait for the shell and may still
/// do so.
pub proof fn a_sighting_concerns_its_own_bar(
    svc: ServiceModel,
    frame: u64,
    kind: CarrierKind,
    target: usize,
    reads: Seq<Option<usize>>,
    i: int,
)
    requires
        svc.wf(),
        0 <= i < svc.bars.len(),
    ensures
        ({
            let after = svc.sighted(frame, kind, target, reads);
            let own = svc.bars[i].frame == frame;
            &&& after.bars.len() == svc.bars.len()
            &&& !own ==> after.bars[i] == svc.bars[i]
            &&& own ==> after.bars[i] == svc.bars[i].sighted(kind, target, reads)
            &&& own ==> svc.sighting(frame, kind, target, reads) == svc.bars[i].sighting_writes(
                kind,
                target,
                reads,
            )
            &&& svc.sighting_arms(frame, kind, target, reads) <==> svc.may_arm() && (svc.sighting(
                frame,
                kind,
                target,
                reads,
            ) matches Some(plan) && plan.1)
            &&& (forall|k: int| 0 <= k < svc.bars.len() ==> (#[trigger] svc.bars[k]).frame != frame)
                ==> after == svc && svc.sighting(frame, kind, target, reads) is None
        }),
{
    lemma_frame_index(svc.bars, frame);
    if svc.bars[i].frame == frame {
        let at = frame_index(svc.bars, frame)->0;
        if at != i {
            if at < i {
                assert(svc.bars[at].frame != svc.bars[i].frame);
            } else {
                assert(svc.bars[i].frame != svc.bars[at].frame);
            }
        }
    }
}

/// The re-walk waits four seconds each time.
pub proof fn the_rewalk_waits_four_seconds()
    ensures
        REWALK_DELAY_MS == 4 * 1000,
        REWALK_MAX_ATTEMPTS == 15,
{
}

} // verus!
