//! The wire protocol between the host process and the module inside the shell.
//!
//! Commands travel as one copied record to a message-only window that the module
//! creates on the taskbar's user-interface thread.

use vstd::prelude::*;

verus! {

/// Bump when [`TapCommand`] changes layout or meaning. A module that sees a version
/// it does not know rejects the command instead of misreading it.
pub const PROTOCOL_VERSION: u32 = 1;

/// Marker of a copied record; a module ignores copies without it.
pub const COPYDATA_MAGIC: u32 = 0x5F50_5442;

/// Bytes of one command.
pub const COMMAND_SIZE: usize = 32;

/// Message-only window class the module registers on the user-interface thread.
pub const TAP_WINDOW_CLASS: &'static str = "WinBeautify.TapWindow";

/// Manual-reset event the host waits on after forcing the module in. The module
/// signals it when the diagnostics connection is up, or failed, so the host never
/// waits longer than it has to.
pub const READY_EVENT_NAME: &'static str = "WinBeautify.Tap.Ready";

/// Name of the module, as the host looks it up next to its own executable.
pub const DLL_FILE_NAME: &'static str = "beautify_taskbar_tap.dll";

/// Exported hook placeholder; its only real job is getting the module mapped into
/// the shell.
pub const HOOK_PROC_NAME: &'static str = "tap_hook_proc";

#[derive(Clone, Copy, Debug, PartialEq, Eq, Structural)]
pub enum CommandKind {
    /// Re-apply the default fills of one taskbar.
    Restore,
    /// Re-apply the default fills of every taskbar.
    RestoreAll,
    /// Paint one taskbar with the requested brush.
    SetAppearance,
    /// Show or hide the hairline along the taskbar's top edge.
    ///
    /// `argb` carries the flag rather than a colour: a non-zero value restores the
    /// shell's own brush and zero clears the fill. Added to an existing protocol
    /// without bumping the version on purpose: the layout is unchanged, and an
    /// older module answers an unknown command with "not applied" instead of
    /// misreading it.
    SetHairline,
}

impl CommandKind {
    /// The number that stands for the command on the wire.
    pub open spec fn number(self) -> u32 {
        match self {
            CommandKind::SetAppearance => 1,
            CommandKind::Restore => 2,
            CommandKind::RestoreAll => 3,
            CommandKind::SetHairline => 4,
        }
    }

    pub fn code(self) -> (r: u32)
        ensures
            r == self.number(),
    {
        match self {
            CommandKind::SetAppearance => 1,
            CommandKind::Restore => 2,
            CommandKind::RestoreAll => 3,
            CommandKind::SetHairline => 4,
        }
    }

    /// The command that a number stands for, if it is one.
    pub fn from_code(code: u32) -> (r: Option<CommandKind>)
        ensures
            match r {
                Some(kind) => kind.number() == code,
                None => forall|kind: CommandKind| (#[trigger] kind.number()) != code,
            },
    {
        if code == 1 {
            Some(CommandKind::SetAppearance)
        } else if code == 2 {
            Some(CommandKind::Restore)
        } else if code == 3 {
            Some(CommandKind::RestoreAll)
        } else if code == 4 {
            Some(CommandKind::SetHairline)
        } else {
            None
        }
    }
}

#[derive(Clone, Copy, Debug, PartialEq, Eq, Structural)]
pub enum BrushKind {
    /// Opaque or translucent tint, no blur.
    Solid,
    /// Blurred backdrop with a translucent tint in front.
    Acrylic,
    /// Blurred backdrop.
    Blur,
}

impl BrushKind {
    pub open spec fn number(self) -> u32 {
        match self {
            BrushKind::Solid => 0,
            BrushKind::Acrylic => 1,
            BrushKind::Blur => 2,
        }
    }

    pub fn code(self) -> (r: u32)
        ensures
            r == self.number(),
    {
        match self {
            BrushKind::Solid => 0,
            BrushKind::Acrylic => 1,
            BrushKind::Blur => 2,
        }
    }

    /// The brush that a number asks for. A number that is no brush asks for a blur.
    pub fn from_code(code: u32) -> (r: BrushKind)
        ensures
            r == (if code == BrushKind::Solid.number() {
                BrushKind::Solid
            } else if code == BrushKind::Acrylic.number() {
                BrushKind::Acrylic
            } else {
                BrushKind::Blur
            }),
    {
        if code == 0 {
            BrushKind::Solid
        } else if code == 1 {
            BrushKind::Acrylic
        } else {
            BrushKind::Blur
        }
    }
}

/// One command, copied verbatim across the process boundary.
///
/// `argb` is `0xAARRGGBB` (alpha in the high byte). `taskbar` is the top-level
/// taskbar window the command addresses; the module resolves it to an island.
/// `blur_amount` holds the bits of a single-precision number.
#[derive(Clone, Copy, Debug, PartialEq, Eq, Structural)]
pub struct TapCommand {
    pub version: u32,
    pub command: u32,
    pub taskbar: u64,
    pub brush: u32,
    pub argb: u32,
    pub blur_amount: u32,
    pub worker_pid: u32,
}

/// The four bytes of a number, least significant first.
pub open spec fn bytes32(value: int) -> Seq<u8> {
    seq![
        (value % 256) as u8,
        (value / 256 % 256) as u8,
        (value / 65536 % 256) as u8,
        (value / 16777216 % 256) as u8,
    ]
}

/// The number that four bytes of `bytes` hold from `at` on.
pub open spec fn number32(bytes: Seq<u8>, at: int) -> int {
    bytes[at] + 256 * bytes[at + 1] + 65536 * bytes[at + 2] + 16777216 * bytes[at + 3]
}

/// Four bytes give back the number they were made from.
pub proof fn bytes_give_back_the_number(value: int)
    requires
        0 <= value < 0x1_0000_0000,
    ensures
        bytes32(value).len() == 4,
        number32(bytes32(value), 0) == value,
{
    let a = value % 256;
    let b = value / 256 % 256;
    let c = value / 65536 % 256;
    let d = value / 16777216 % 256;
    assert(value == a + 256 * b + 65536 * c + 16777216 * d);
}

fn push32(out: &mut Vec<u8>, value: u32)
    ensures
        final(out)@ == old(out)@ + bytes32(value as int),
{
    out.push((value % 256) as u8);
    out.push((value / 256 % 256) as u8);
    out.push((value / 65536 % 256) as u8);
    out.push((value / 16777216 % 256) as u8);
    assert(out@ =~= old(out)@ + bytes32(value as int));
}

fn read32(bytes: &Vec<u8>, at: usize) -> (r: u32)
    requires
        at + 4 <= bytes@.len(),
    ensures
        r == number32(bytes@, at as int),
{
    let end: usize = bytes.len();
    assert(at + 4 <= end);
    bytes[at] as u32 + 256 * bytes[at + 1] as u32 + 65536 * bytes[at + 2] as u32 + 16777216
        * bytes[at + 3] as u32
}

impl TapCommand {
    /// The record on the wire: eight numbers of four bytes, the taskbar's low half
    /// before its high half.
    pub open spec fn wire(self) -> Seq<u8> {
        bytes32(self.version as int) + bytes32(self.command as int) + bytes32(
            self.taskbar as int % 0x1_0000_0000,
        ) + bytes32(self.taskbar as int / 0x1_0000_0000) + bytes32(self.brush as int) + bytes32(
            self.argb as int,
        ) + bytes32(self.blur_amount as int) + bytes32(self.worker_pid as int)
    }

    /// The command that a record of the right size holds.
    pub open spec fn parsed(bytes: Seq<u8>) -> TapCommand {
        TapCommand {
            version: number32(bytes, 0) as u32,
            command: number32(bytes, 4) as u32,
            taskbar: (number32(bytes, 8) + 0x1_0000_0000 * number32(bytes, 12)) as u64,
            brush: number32(bytes, 16) as u32,
            argb: number32(bytes, 20) as u32,
            blur_amount: number32(bytes, 24) as u32,
            worker_pid: number32(bytes, 28) as u32,
        }
    }

    /// A command with everything else at zero.
    pub fn new(command: CommandKind) -> (r: TapCommand)
        ensures
            r == (TapCommand {
                version: PROTOCOL_VERSION,
                command: command.number(),
                taskbar: 0,
                brush: 0,
                argb: 0,
                blur_amount: 0,
                worker_pid: 0,
            }),
    {
        TapCommand {
            version: PROTOCOL_VERSION,
            command: command.code(),
            taskbar: 0,
            brush: 0,
            argb: 0,
            blur_amount: 0,
            worker_pid: 0,
        }
    }

    /// The record on the wire.
    pub fn to_bytes(&self) -> (r: Vec<u8>)
        ensures
            r@ == self.wire(),
            r@.len() == COMMAND_SIZE,
    {
        let mut out: Vec<u8> = Vec::new();
        push32(&mut out, self.version);
        push32(&mut out, self.command);
        push32(&mut out, (self.taskbar % 0x1_0000_0000) as u32);
        push32(&mut out, (self.taskbar / 0x1_0000_0000) as u32);
        push32(&mut out, self.brush);
        push32(&mut out, self.argb);
        push32(&mut out, self.blur_amount);
        push32(&mut out, self.worker_pid);
        assert(out@ =~= self.wire());
        out
    }

    /// The command in a copied record; `None` when the record does not carry the
    /// marker, has another size or holds no data.
    pub fn from_copy(marker: u64, data: Option<&Vec<u8>>) -> (r: Option<TapCommand>)
        ensures
            r == (if marker == COPYDATA_MAGIC && data is Some && data->0@.len() == COMMAND_SIZE {
                Some(TapCommand::parsed(data->0@))
            } else {
                None
            }),
    {
        if marker != COPYDATA_MAGIC as u64 {
            return None;
        }
        match data {
            None => None,
            Some(bytes) => {
                if bytes.len() != COMMAND_SIZE {
                    return None;
                }
                let low: u64 = read32(bytes, 8) as u64;
                let high: u64 = read32(bytes, 12) as u64;
                Some(
                    TapCommand {
                        version: read32(bytes, 0),
                        command: read32(bytes, 4),
                        taskbar: low + 0x1_0000_0000 * high,
                        brush: read32(bytes, 16),
                        argb: read32(bytes, 20),
                        blur_amount: read32(bytes, 24),
                        worker_pid: read32(bytes, 28),
                    },
                )
            },
        }
    }

    /// What one side writes, the other side reads: a record gives back the command
    /// it was made from.
    #[verifier::rlimit(60)]
    pub proof fn the_wire_gives_the_command_back(self)
        ensures
            self.wire().len() == COMMAND_SIZE,
            TapCommand::parsed(self.wire()) == self,
    {
        let w = self.wire();
        let low = self.taskbar as int % 0x1_0000_0000;
        let high = self.taskbar as int / 0x1_0000_0000;
        assert(w.subrange(0, 4) =~= bytes32(self.version as int));
        assert(w.subrange(4, 8) =~= bytes32(self.command as int));
        assert(w.subrange(8, 12) =~= bytes32(low));
        assert(w.subrange(12, 16) =~= bytes32(high));
        assert(w.subrange(16, 20) =~= bytes32(self.brush as int));
        assert(w.subrange(20, 24) =~= bytes32(self.argb as int));
        assert(w.subrange(24, 28) =~= bytes32(self.blur_amount as int));
        assert(w.subrange(28, 32) =~= bytes32(self.worker_pid as int));
        lemma_field(w, 0, self.version as int);
        lemma_field(w, 4, self.command as int);
        lemma_field(w, 8, low);
        lemma_field(w, 12, high);
        lemma_field(w, 16, self.brush as int);
        lemma_field(w, 20, self.argb as int);
        lemma_field(w, 24, self.blur_amount as int);
        lemma_field(w, 28, self.worker_pid as int);
        assert(low + 0x1_0000_0000 * high == self.taskbar);
    }
}

proof fn lemma_field(bytes: Seq<u8>, at: int, value: int)
    requires
        0 <= at,
        at + 4 <= bytes.len(),
        bytes.subrange(at, at + 4) == bytes32(value),
        0 <= value < 0x1_0000_0000,
    ensures
        number32(bytes, at) == value,
{
    bytes_give_back_the_number(value);
    let part = bytes.subrange(at, at + 4);
    assert(part[0] == bytes[at]);
    assert(part[1] == bytes[at + 1]);
    assert(part[2] == bytes[at + 2]);
    assert(part[3] == bytes[at + 3]);
}

/// The numbers that commands and brushes have on the wire.
pub proof fn the_wire_numbers_are_fixed()
    ensures
        CommandKind::SetAppearance.number() == 1,
        CommandKind::Restore.number() == 2,
        CommandKind::RestoreAll.number() == 3,
        CommandKind::SetHairline.number() == 4,
        BrushKind::Solid.number() == 0,
        BrushKind::Acrylic.number() == 1,
        BrushKind::Blur.number() == 2,
{
}

/// Every field of a command has its own place on the wire, least significant byte first: the
/// version at 0, the command at 4, the taskbar in the eight bytes at 8, then the brush, the
/// colour, the blur and the host, four bytes each.
#[verifier::spinoff_prover]
pub proof fn each_field_has_its_place(command: TapCommand)
    ensures
        ({
            let bytes = command.wire();
            &&& bytes.len() == 32
            &&& number32(bytes, 0) == command.version
            &&& number32(bytes, 4) == command.command
            &&& number32(bytes, 8) + 0x1_0000_0000 * number32(bytes, 12) == command.taskbar
            &&& number32(bytes, 16) == command.brush
            &&& number32(bytes, 20) == command.argb
            &&& number32(bytes, 24) == command.blur_amount
            &&& number32(bytes, 28) == command.worker_pid
        }),
        forall|bytes: Seq<u8>, at: int| #[trigger]
            number32(bytes, at) == bytes[at] + 0x100 * bytes[at + 1] + 0x1_0000 * bytes[at + 2]
                + 0x100_0000 * bytes[at + 3],
{
    let bytes = command.wire();
    let low = command.taskbar as int % 0x1_0000_0000;
    let high = command.taskbar as int / 0x1_0000_0000;
    bytes_give_back_the_number(command.version as int);
    bytes_give_back_the_number(command.command as int);
    bytes_give_back_the_number(low);
    bytes_give_back_the_number(high);
    bytes_give_back_the_number(command.brush as int);
    bytes_give_back_the_number(command.argb as int);
    bytes_give_back_the_number(command.blur_amount as int);
    bytes_give_back_the_number(command.worker_pid as int);
}

} // verus!
