//! The entry point: the class factory the diagnostics framework instantiates, the
//! object it drives, the connection attempts, and the exported hook procedure that
//! the host uses as a loader vehicle.

use vstd::prelude::*;
use vstd::string::StringExecFns;

use crate::tap::com::{
    com_query_interface, query_answer, Guid, QueryAnswer, VtblPtr, IID_ICLASS_FACTORY,
    IID_IOBJECT_WITH_SITE,
};
use crate::text::{decimal, push_decimal};

verus! {

/// Identity of the class that the framework asks for.
pub const TAP_CLSID: Guid = 0x7b1f3a2e_5c4d_4e8f_9a2b_1d0c3e5f7a9b;

/// Connection attempts before giving up, half a second apart.
pub const INSTALL_ATTEMPTS: u32 = 60;

/// Units of the buffer that the ready event's name goes into.
pub const EVENT_NAME_MAX: usize = 64;

/// The object that the framework drives.
#[derive(Clone, Copy, Debug, PartialEq, Eq, Structural)]
pub struct TapSite {
    /// The object's header: the framework reads the table out of the first word.
    pub vtable: VtblPtr,
    /// The site, as an owned reference, or zero.
    pub site: usize,
    pub ref_count: u32,
}

/// The class factory, which lives as long as the process.
#[derive(Clone, Copy, Debug, PartialEq, Eq, Structural)]
pub struct ClassFactory {
    /// The object's header: the framework reads the table out of the first word.
    pub vtable: VtblPtr,
    pub ref_count: u32,
}

/// How an entry point answers.
#[derive(Clone, Copy, Debug, PartialEq, Eq, Structural)]
pub enum Answer {
    Success,
    /// Success without effect.
    NoEffect,
    Fail,
    NoAggregation,
    ClassNotAvailable,
    NoInterface,
}

/// How an answer to a request for an interface is reported.
pub open spec fn reported(answer: QueryAnswer) -> Answer {
    match answer {
        QueryAnswer::Fail => Answer::Fail,
        QueryAnswer::NoInterface => Answer::NoInterface,
        _ => Answer::Success,
    }
}

fn report(answer: QueryAnswer) -> (r: Answer)
    ensures
        r == reported(answer),
{
    match answer {
        QueryAnswer::Fail => Answer::Fail,
        QueryAnswer::NoInterface => Answer::NoInterface,
        QueryAnswer::WeakReferenceSource => Answer::Success,
        QueryAnswer::Itself => Answer::Success,
    }
}

/// The interfaces of a site object.
pub open spec fn site_interfaces() -> Seq<Guid> {
    seq![IID_IOBJECT_WITH_SITE]
}

/// The interfaces of the class factory.
pub open spec fn factory_interfaces() -> Seq<Guid> {
    seq![IID_ICLASS_FACTORY]
}

impl ClassFactory {
    /// The factory. Its initial reference is never released, so it is never freed.
    pub fn factory(vtable: VtblPtr) -> (r: ClassFactory)
        ensures
            r == (ClassFactory { vtable, ref_count: 1 }),
    {
        ClassFactory { vtable, ref_count: 1 }
    }

    /// Make an object for the framework: how the call is answered, and the object that
    /// stays alive, if one does.
    ///
    /// The framework probes with interfaces that are not supported and falls back to the
    /// real one; every call must be able to hand out a fresh object. Aggregation is not
    /// supported.
    pub fn create_instance(
        outer_given: bool,
        requested: Option<Guid>,
        out_given: bool,
        vtable: VtblPtr,
    ) -> (r: (Answer, Option<TapSite>))
        ensures
            outer_given ==> r.0 == Answer::NoAggregation && r.1 is None,
            !outer_given ==> {
                let answer = query_answer(site_interfaces(), false, requested, out_given);
                &&& r.0 == reported(answer)
                &&& r.1 == (if r.0 == Answer::Success {
                    Some(
                        TapSite {
                            vtable,
                            site: 0,
                            ref_count: if answer is Itself {
                                2
                            } else {
                                1
                            },
                        },
                    )
                } else {
                    None
                })
            },
    {
        if outer_given {
            return (Answer::NoAggregation, None);
        }
        let mut supported: Vec<Guid> = Vec::new();
        supported.push(IID_IOBJECT_WITH_SITE);
        assert(supported@ =~= site_interfaces());
        let mut ref_count: u32 = 1;
        let answer = com_query_interface(&supported, false, requested, out_given, &mut ref_count);
        let result = report(answer);
        match result {
            Answer::Success => (result, Some(TapSite { vtable, site: 0, ref_count })),
            _ => (result, None),
        }
    }

    /// Locking the server needs nothing: the module is never unloaded.
    pub fn lock_server() -> (r: Answer)
        ensures
            r == Answer::Success,
    {
        Answer::Success
    }
}

/// What is found out about a site before it is accepted.
#[derive(Clone, Copy, Debug, PartialEq, Eq, Structural)]
pub struct SiteProbe {
    /// A reference could be taken.
    pub adopted: bool,
    /// It is the diagnostics object that the watcher walks the tree with.
    pub speaks_diagnostics: bool,
    /// The reference that is kept for later questions, if one could be had.
    pub kept: Option<usize>,
}

/// Is the one connection taken after an offer?
pub open spec fn site_taken(taken: bool, offered: Option<SiteProbe>) -> bool {
    taken || offered is Some
}

/// How an offer is answered, and whether it starts the watcher.
pub open spec fn site_outcome(taken: bool, offered: Option<SiteProbe>) -> (Answer, bool) {
    match offered {
        None => (Answer::Success, false),
        Some(probe) => if taken {
            (Answer::Fail, false)
        } else if !probe.adopted {
            (Answer::NoEffect, false)
        } else {
            (Answer::Success, probe.speaks_diagnostics)
        },
    }
}

impl TapSite {
    /// A site is offered. Only one live connection per process: the first real site
    /// wins, later ones are refused. Returns the answer and whether the watcher is to
    /// be started.
    pub fn set_site(&mut self, taken: &mut bool, offered: Option<SiteProbe>) -> (r: (Answer, bool))
        ensures
            *final(taken) == site_taken(*old(taken), offered),
            r == site_outcome(*old(taken), offered),
            *final(self) == (if r.1 && offered->0.kept is Some {
                TapSite { site: offered->0.kept->0, ..*old(self) }
            } else {
                *old(self)
            }),
    {
        match offered {
            None => (Answer::Success, false),
            Some(probe) => {
                let already = *taken;
                *taken = true;
                if already {
                    return (Answer::Fail, false);
                }
                if !probe.adopted {
                    return (Answer::NoEffect, false);
                }
                if !probe.speaks_diagnostics {
                    return (Answer::Success, false);
                }
                match probe.kept {
                    None => {},
                    Some(reference) => {
                        self.site = reference;
                    },
                }
                (Answer::Success, true)
            },
        }
    }

    /// The stored site, to be asked for the requested interface; a failure when there is
    /// none or an argument is missing.
    pub fn get_site(&self, iid_given: bool, out_given: bool) -> (r: Option<usize>)
        ensures
            r == (if self.site == 0 || !iid_given || !out_given {
                None
            } else {
                Some(self.site)
            }),
    {
        if self.site == 0 || !iid_given || !out_given {
            None
        } else {
            Some(self.site)
        }
    }
}

/// Once a real site was offered, every later one is refused and starts no watcher.
pub proof fn later_sites_are_refused(taken: bool, first: SiteProbe, later: SiteProbe)
    ensures
        site_outcome(site_taken(taken, Some(first)), Some(later)) == (Answer::Fail, false),
{
}

/// How the framework reaches the class factory: the answer, and the count of its
/// references.
pub fn get_class_object(
    factory: &mut ClassFactory,
    clsid: Option<Guid>,
    requested: Option<Guid>,
    out_given: bool,
) -> (r: Answer)
    ensures
        final(factory).vtable == old(factory).vtable,
        clsid != Some(TAP_CLSID) ==> r == Answer::ClassNotAvailable && *final(factory) == *old(
            factory,
        ),
        clsid == Some(TAP_CLSID) ==> {
            let answer = query_answer(factory_interfaces(), false, requested, out_given);
            &&& r == reported(answer)
            &&& final(factory).ref_count == (if answer is Itself {
                crate::tap::com::counted_up(old(factory).ref_count)
            } else {
                old(factory).ref_count
            })
        },
{
    match clsid {
        None => Answer::ClassNotAvailable,
        Some(class) => {
            if class != TAP_CLSID {
                return Answer::ClassNotAvailable;
            }
            let mut supported: Vec<Guid> = Vec::new();
            supported.push(IID_ICLASS_FACTORY);
            assert(supported@ =~= factory_interfaces());
            let answer = com_query_interface(
                &supported,
                false,
                requested,
                out_given,
                &mut factory.ref_count,
            );
            report(answer)
        },
    }
}

/// The module is never unloaded.
pub fn can_unload_now() -> (r: Answer)
    ensures
        r == Answer::NoEffect,
{
    Answer::NoEffect
}

/// The ready event's name in a buffer of fixed size, cut off where it does not fit and
/// ended by a zero.
pub fn create_ready_event(name: &Vec<u16>) -> (r: Vec<u16>)
    ensures
        r@.len() == EVENT_NAME_MAX,
        forall|i: int|
            0 <= i < EVENT_NAME_MAX ==> #[trigger] r@[i] == (if i < name@.len() && i
                < EVENT_NAME_MAX - 1 {
                name@[i]
            } else {
                0
            }),
{
    let mut units: Vec<u16> = Vec::new();
    let mut i: usize = 0;
    while i < EVENT_NAME_MAX
        invariant
            0 <= i <= EVENT_NAME_MAX,
            units@.len() == i,
            forall|k: int|
                0 <= k < i ==> #[trigger] units@[k] == (if k < name@.len() && k < EVENT_NAME_MAX
                    - 1 {
                    name@[k]
                } else {
                    0
                }),
        decreases EVENT_NAME_MAX - i,
    {
        if i < name.len() && i < EVENT_NAME_MAX - 1 {
            units.push(name[i]);
        } else {
            units.push(0);
        }
        i = i + 1;
    }
    units
}

/// What follows a connection attempt.
#[derive(Clone, Copy, Debug, PartialEq, Eq, Structural)]
pub enum Install {
    Connected,
    /// Wait, then try again under the next name.
    Retry { attempt: u32 },
    GiveUp,
}

/// What follows connection attempt `attempt`. The connection name is rotated in case
/// another tool is already attached.
pub fn install_inner(attempt: u32, connected: bool) -> (r: Install)
    ensures
        r == (if connected {
            Install::Connected
        } else if attempt >= INSTALL_ATTEMPTS {
            Install::GiveUp
        } else {
            Install::Retry { attempt: (attempt + 1) as u32 }
        }),
{
    if connected {
        return Install::Connected;
    }
    if attempt >= INSTALL_ATTEMPTS {
        return Install::GiveUp;
    }
    Install::Retry { attempt: attempt + 1 }
}

/// The name that a connection attempt uses. The framework registers its endpoints under
/// exactly this family of names.
pub fn connection_name(attempt: u32) -> (r: String)
    ensures
        r@ == "VisualDiagConnection"@ + decimal(attempt as int),
{
    let mut name = String::new();
    name.append("VisualDiagConnection");
    push_decimal(&mut name, attempt as i64);
    assert(name@ =~= "VisualDiagConnection"@ + decimal(attempt as int));
    name
}

/// The installation has ended. When it failed, the host is signalled, so it does not
/// wait out its whole timeout, and a later injection may try again.
pub fn install_thread(connected: bool, started: &mut bool) -> (signal: bool)
    ensures
        signal == !connected,
        *final(started) == (*old(started) && connected),
{
    if !connected {
        *started = false;
    }
    !connected
}

/// Did a module path of `len` units fit a buffer of `capacity`? A path that fills it
/// may have been cut off.
pub fn module_path_complete(len: usize, capacity: usize) -> (r: bool)
    ensures
        r == (0 < len < capacity),
{
    len > 0 && len < capacity
}

/// The hook fires for every sent message while it is installed; the first call in the
/// shell boots the installation. Hooks fire in the host process too.
pub fn tap_hook_proc(n_code: i32, started: &mut bool, in_explorer: bool) -> (boot: bool)
    ensures
        boot == (n_code >= 0 && !*old(started) && in_explorer),
        *final(started) == (*old(started) || n_code >= 0),
{
    if n_code < 0 {
        return false;
    }
    let already = *started;
    *started = true;
    !already && in_explorer
}

/// The shell's file name, in lower case.
pub open spec fn explorer_name() -> Seq<u16> {
    // "explorer.exe"
    seq![
        0x65u16, 0x78u16, 0x70u16, 0x6Cu16, 0x6Fu16, 0x72u16, 0x65u16, 0x72u16, 0x2Eu16, 0x65u16,
        0x78u16, 0x65u16,
    ]
}

/// A unit with an upper-case letter turned into its lower-case one.
pub open spec fn lowered(unit: u16) -> u16 {
    if 0x41 <= unit <= 0x5A {
        (unit + 0x20) as u16
    } else {
        unit
    }
}

/// Is this the path of the shell? Its last part has to be the whole file name:
/// `my-explorer.exe` is a different program.
pub open spec fn names_explorer(path: Seq<u16>) -> bool {
    let start = path.len() - 12;
    &&& start >= 0
    &&& start > 0 ==> path[start - 1] == 0x5C || path[start - 1] == 0x2F
    &&& forall|i: int| 0 <= i < 12 ==> lowered(#[trigger] path[start + i]) == explorer_name()[i]
}

/// Is this the path of the shell? The module can be dragged into other processes on the
/// same desktop; only the shell hosts the taskbar.
pub fn is_explorer(path: &Vec<u16>) -> (r: bool)
    ensures
        r == names_explorer(path@),
{
    let name: [u16; 12] = [
        0x65, 0x78, 0x70, 0x6C, 0x6F, 0x72, 0x65, 0x72, 0x2E, 0x65, 0x78, 0x65,
    ];
    assert(name@ =~= explorer_name());
    let len: usize = path.len();
    if len < 12 {
        return false;
    }
    let start: usize = len - 12;
    if start > 0 {
        let before: u16 = path[start - 1];
        if before != 0x5C && before != 0x2F {
            return false;
        }
    }
    let mut i: usize = 0;
    while i < 12
        invariant
            0 <= i <= 12,
            name@ == explorer_name(),
            name@.len() == 12,
            len == path@.len(),
            start + 12 == len,
            forall|k: int|
                0 <= k < i ==> lowered(#[trigger] path@[start + k]) == explorer_name()[k],
        decreases 12 - i,
    {
        let unit: u16 = path[start + i];
        let lower: u16 = if 0x41 <= unit && unit <= 0x5A {
            unit + 0x20
        } else {
            unit
        };
        if lower != name[i] {
            assert(lowered(path@[start + i as int]) != explorer_name()[i as int]);
            return false;
        }
        i = i + 1;
    }
    true
}

/// The first site that is offered and can be taken wins: it starts the watcher if it speaks the
/// diagnostics' language. One that cannot be taken has no effect, no site at all is fine, and
/// either way an offer uses the one connection up.
pub proof fn the_first_site_wins(probe: SiteProbe, taken: bool)
    ensures
        probe.adopted ==> site_outcome(false, Some(probe)) == (
            Answer::Success,
            probe.speaks_diagnostics,
        ),
        !probe.adopted ==> site_outcome(false, Some(probe)) == (Answer::NoEffect, false),
        site_outcome(true, Some(probe)) == (Answer::Fail, false),
        site_outcome(taken, None) == (Answer::Success, false),
        site_taken(taken, Some(probe)),
        site_taken(taken, None) == taken,
{
}

/// A site object answers for being one and the factory for being one; what is answered at all
/// is reported as a success.
pub proof fn objects_say_what_they_are()
    ensures
        site_interfaces() == seq![0xfc4801a3_2ba9_11cf_a229_00aa003d7352u128],
        factory_interfaces() == seq![0x00000001_0000_0000_c000_000000000046u128],
        reported(QueryAnswer::Itself) == Answer::Success,
        reported(QueryAnswer::WeakReferenceSource) == Answer::Success,
        reported(QueryAnswer::NoInterface) == Answer::NoInterface,
        reported(QueryAnswer::Fail) == Answer::Fail,
{
}

/// The shell is `explorer.exe`, in letters of either case, alone or behind a separator: a path
/// that ends in other letters, or whose file name is longer, is another program's.
#[verifier::spinoff_prover]
pub proof fn the_shell_is_explorer(folder: Seq<u16>, name: Seq<u16>, unit: u16)
    requires
        name.len() == 12,
    ensures
        ({
            // "explorer.exe"
            let small = seq![
                0x65u16, 0x78u16, 0x70u16, 0x6Cu16, 0x6Fu16, 0x72u16, 0x65u16, 0x72u16, 0x2Eu16,
                0x65u16, 0x78u16, 0x65u16,
            ];
            let same = forall|i: int|
                0 <= i < 12 ==> (#[trigger] name[i] == small[i] || (small[i] >= 0x61 && name[i]
                    == small[i] - 0x20));
            &&& names_explorer(name) <==> same
            &&& names_explorer(folder.push(0x5C) + name) <==> same
            &&& names_explorer(folder.push(0x2F) + name) <==> same
            &&& unit != 0x5C && unit != 0x2F ==> !names_explorer(folder.push(unit) + name)
        }),
{
    assert(name.subrange(0, 12) =~= name);
    lemma_explorer(name, name, 0);
    let at = folder.len() as int + 1;
    let one = folder.push(0x5C) + name;
    let two = folder.push(0x2F) + name;
    let three = folder.push(unit) + name;
    assert(one.subrange(at, at + 12) =~= name);
    assert(two.subrange(at, at + 12) =~= name);
    lemma_explorer(one, name, at);
    lemma_explorer(two, name, at);
    assert(one[at - 1] == 0x5C && two[at - 1] == 0x2F && three[at - 1] == unit);
}

proof fn lemma_explorer(path: Seq<u16>, name: Seq<u16>, at: int)
    requires
        name.len() == 12,
        0 <= at,
        path.len() == at + 12,
        path.subrange(at, at + 12) == name,
    ensures
        (forall|i: int| 0 <= i < 12 ==> lowered(#[trigger] path[at + i]) == explorer_name()[i])
            <==> (forall|i: int|
            0 <= i < 12 ==> (#[trigger] name[i] == explorer_name()[i] || (explorer_name()[i] >= 0x61
                && name[i] == explorer_name()[i] - 0x20))),
{
    let small = explorer_name();
    assert forall|i: int| 0 <= i < 12 implies path[at + i] == #[trigger] name[i] by {
        assert(path.subrange(at, at + 12)[i] == path[at + i]);
    }
    if forall|i: int| 0 <= i < 12 ==> lowered(#[trigger] path[at + i]) == small[i] {
        assert forall|i: int| 0 <= i < 12 implies (#[trigger] name[i] == small[i] || (small[i]
            >= 0x61 && name[i] == small[i] - 0x20)) by {
            assert(lowered(path[at + i]) == small[i]);
        }
    }
    if forall|i: int|
        0 <= i < 12 ==> (#[trigger] name[i] == small[i] || (small[i] >= 0x61 && name[i] == small[i]
            - 0x20)) {
        assert forall|i: int| 0 <= i < 12 implies lowered(#[trigger] path[at + i]) == small[i] by {
            assert(path[at + i] == name[i]);
        }
    }
}

/// A connection is tried under sixty names before it is given up.
pub proof fn a_connection_is_tried_sixty_times()
    ensures
        INSTALL_ATTEMPTS == 60,
        EVENT_NAME_MAX == 64,
        TAP_CLSID == 0x7b1f3a2e_5c4d_4e8f_9a2b_1d0c3e5f7a9b,
{
}

} // verus!
