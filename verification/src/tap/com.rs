//! The interface identities, records and reference counting of the objects that the
//! shell's diagnostics framework talks to.

use vstd::prelude::*;
use vstd::string::StringExecFns;

verus! {

/// An interface identity, as one 128-bit number.
pub type Guid = u128;

pub const IID_IUNKNOWN: Guid = 0x00000000_0000_0000_c000_000000000046;

pub const IID_IXAML_DIAGNOSTICS: Guid = 0x18c9e2b6_3f43_4116_9f2b_ff935d7770d2;

pub const IID_IVISUAL_TREE_SERVICE3: Guid = 0x0e79c6e0_85a0_4be8_b41a_655cf1fd19bd;

pub const IID_IVISUAL_TREE_SERVICE_CALLBACK: Guid = 0xaa7a8931_80e4_4fec_8f3b_553f87b4966e;

pub const IID_IVISUAL_TREE_SERVICE_CALLBACK2: Guid = 0xbad9eb88_ae77_4397_b948_5fa2db0a19ea;

pub const IID_IOBJECT_WITH_SITE: Guid = 0xfc4801a3_2ba9_11cf_a229_00aa003d7352;

pub const IID_ICLASS_FACTORY: Guid = 0x00000001_0000_0000_c000_000000000046;

pub const IID_IDESKTOP_WINDOW_XAML_SOURCE_NATIVE: Guid = 0x3cbcf1bf_2f76_4e9c_96ab_e84b37972554;

pub const IID_IDESKTOP_WINDOW_XAML_SOURCE: Guid = 0xd585bfe1_00ff_51be_ba1d_a1329956ea0a;

pub const IID_IUI_ELEMENT: Guid = 0x676d0be9_b65c_41c6_ba40_58cf87f201c1;

pub const IID_IDEPENDENCY_OBJECT: Guid = 0x5c526665_f60e_4912_af59_5fe0680f089d;

pub const IID_IFRAMEWORK_ELEMENT: Guid = 0xa391d09b_4a99_4b7c_9d8d_6fa5d01f6fbf;

pub const IID_IBRUSH: Guid = 0x8806a321_1e06_422c_a1cc_01696559e021;

pub const IID_ISHAPE: Guid = 0x786f2b75_9aa0_454d_ae06_a2466e37c832;

pub const IID_ISOLID_COLOR_BRUSH: Guid = 0x9d850850_66f3_48df_9a8f_824bd5e070af;

pub const IID_IACRYLIC_BRUSH: Guid = 0x79bbcf4e_cd66_4f1b_a8b6_cd6d2977c18d;

pub const IID_IBORDER: Guid = 0x797c4539_45bd_4633_a044_bfb02ef5170f;

pub const IID_IXAML_READER_STATICS: Guid = 0x9891c6bd_534f_4955_b85a_8a8dc0dca602;

pub const IID_ICONTROL: Guid = 0xa8912263_2951_4f58_a9c5_5a134eaa7f07;

pub const IID_IVISUAL_TREE_HELPER_STATICS: Guid = 0xe75758c4_d25d_4b1d_971f_596f17f12baa;

pub const IID_IELEMENT_COMPOSITION_PREVIEW_STATICS: Guid =
    0x08c92b38_ec99_4c55_bc85_a1c180b27646;

pub const IID_ICOMPOSITION_OBJECT: Guid = 0xbcb4ad45_7609_4550_934f_16002a68fded;

pub const IID_IWEAK_REFERENCE_SOURCE: Guid = 0x00000038_0000_0000_c000_000000000046;

pub const IID_IAGILE_OBJECT: Guid = 0x94ea2b94_e9cc_49e0_c0ff_ee64ca8f5b90;

/// The diagnostics framework's number for an element of the visual tree.
pub type InstanceHandle = u64;

pub const VISUAL_MUTATION_ADD: i32 = 0;

pub const VISUAL_MUTATION_REMOVE: i32 = 1;

/// A colour, alpha first.
#[derive(Clone, Copy, Debug, PartialEq, Eq, Structural)]
pub struct Color {
    pub a: u8,
    pub r: u8,
    pub g: u8,
    pub b: u8,
}

impl Color {
    /// The colour as `0xAARRGGBB`.
    pub open spec fn argb(self) -> int {
        self.a * 0x100_0000 + self.r * 0x1_0000 + self.g * 0x100 + self.b
    }

    /// The colour of a number `0xAARRGGBB`.
    pub open spec fn of_argb(argb: u32) -> Color {
        Color {
            a: (argb / 0x100_0000) as u8,
            r: (argb / 0x1_0000 % 0x100) as u8,
            g: (argb / 0x100 % 0x100) as u8,
            b: (argb % 0x100) as u8,
        }
    }

    /// The colour of a number `0xAARRGGBB`.
    pub fn from_argb(argb: u32) -> (r: Color)
        ensures
            r == Self::of_argb(argb),
            r.argb() == argb,
    {
        Color {
            a: (argb / 0x100_0000) as u8,
            r: (argb / 0x1_0000 % 0x100) as u8,
            g: (argb / 0x100 % 0x100) as u8,
            b: (argb % 0x100) as u8,
        }
    }

    /// Different colours have different numbers, so the number fixes the colour.
    pub proof fn a_number_is_one_color(self, other: Color)
        requires
            self.argb() == other.argb(),
        ensures
            self == other,
    {
        let da = self.a - other.a;
        let dr = self.r - other.r;
        let dg = self.g - other.g;
        let db = self.b - other.b;
        let k1 = da * 0x1_0000 + dr * 0x100 + dg;
        assert(db == -(k1 * 0x100));
        assert(k1 == 0);
        let k2 = da * 0x100 + dr;
        assert(dg == -(k2 * 0x100));
        assert(k2 == 0);
        assert(dr == -(da * 0x100));
    }
}

/// Which element was added below, or removed from, which.
#[derive(Clone, Copy, Debug, PartialEq, Eq, Structural)]
pub struct ParentChildRelation {
    pub parent: InstanceHandle,
    pub child: InstanceHandle,
    pub child_index: u32,
}

/// Where in the markup an element comes from. The strings are addresses of what the
/// framework hands over.
#[derive(Clone, Copy, Debug, PartialEq, Eq, Structural)]
pub struct SourceInfo {
    pub file_name: usize,
    pub line_number: u32,
    pub column_number: u32,
    pub char_position: u32,
    pub hash: usize,
}

/// An element of the visual tree, as the framework reports it. The strings are
/// addresses of what the framework hands over.
#[derive(Clone, Copy, Debug, PartialEq, Eq, Structural)]
pub struct VisualElement {
    pub handle: InstanceHandle,
    pub src_info: SourceInfo,
    pub class_name: usize,
    pub name: usize,
    pub num_children: u32,
}

impl VisualElement {
    /// The strings that have to be freed once they have been read: every one that
    /// is there.
    pub fn owned_strings(&self) -> (r: Vec<usize>)
        ensures
            r@ == seq![self.class_name, self.name, self.src_info.file_name, self.src_info.hash].filter(
                |address: usize| address != 0,
            ),
    {
        let all: [usize; 4] = [
            self.class_name,
            self.name,
            self.src_info.file_name,
            self.src_info.hash,
        ];
        let ghost wanted = |address: usize| address != 0;
        let mut owned: Vec<usize> = Vec::new();
        let mut i: usize = 0;
        assert(all@ =~= seq![
            self.class_name,
            self.name,
            self.src_info.file_name,
            self.src_info.hash,
        ]);
        assert(all@.take(0).filter(wanted) =~= Seq::<usize>::empty());
        while i < 4
            invariant
                0 <= i <= 4,
                all@.len() == 4,
                wanted == (|address: usize| address != 0),
                owned@ == all@.take(i as int).filter(wanted),
            decreases 4 - i,
        {
            proof {
                let next = all@.take(i + 1);
                assert(next.drop_last() =~= all@.take(i as int));
                reveal(Seq::filter);
            }
            if all[i] != 0 {
                owned.push(all[i]);
            }
            i = i + 1;
        }
        assert(all@.take(4) =~= all@);
        owned
    }
}

/// The address of a table of entry points. The table is immutable forever.
#[derive(Clone, Copy, Debug, PartialEq, Eq, Structural)]
pub struct VtblPtr(pub usize);

/// How an object answers a request for one of its interfaces.
#[derive(Clone, Copy, Debug, PartialEq, Eq, Structural)]
pub enum QueryAnswer {
    /// An argument is missing.
    Fail,
    /// A separate object that hands out weak references to this one.
    WeakReferenceSource,
    /// The object itself, with one more reference on it.
    Itself,
    /// The interface is not known.
    NoInterface,
}

/// What one of our objects answers besides the interfaces that all of them do.
pub open spec fn knows(supported: Seq<Guid>, requested: Guid) -> bool {
    requested == IID_IUNKNOWN || supported.contains(requested)
}

/// How an object that supports `supported`, and is agile or not, answers a request.
///
/// The weak-reference source and the multiple-window callback are answered by every
/// object; the agility marker only by an agile one.
pub open spec fn query_answer(
    supported: Seq<Guid>,
    agile: bool,
    requested: Option<Guid>,
    out_given: bool,
) -> QueryAnswer {
    match requested {
        None => QueryAnswer::Fail,
        Some(iid) => if !out_given {
            QueryAnswer::Fail
        } else if iid == IID_IWEAK_REFERENCE_SOURCE {
            QueryAnswer::WeakReferenceSource
        } else if (iid == IID_IAGILE_OBJECT && agile) || iid == IID_IVISUAL_TREE_SERVICE_CALLBACK2
            || knows(supported, iid) {
            QueryAnswer::Itself
        } else {
            QueryAnswer::NoInterface
        },
    }
}

fn supports(supported: &Vec<Guid>, requested: Guid) -> (r: bool)
    ensures
        r == supported@.contains(requested),
{
    let mut i: usize = 0;
    while i < supported.len()
        invariant
            0 <= i <= supported@.len(),
            forall|k: int| 0 <= k < i ==> supported@[k] != requested,
        decreases supported@.len() - i,
    {
        if supported[i] == requested {
            return true;
        }
        i = i + 1;
    }
    false
}

/// Answer a request for an interface, and count the reference that it hands out.
///
/// The count wraps, as the counter behind it does.
pub fn com_query_interface(
    supported: &Vec<Guid>,
    agile: bool,
    requested: Option<Guid>,
    out_given: bool,
    ref_count: &mut u32,
) -> (r: QueryAnswer)
    ensures
        r == query_answer(supported@, agile, requested, out_given),
        *final(ref_count) == (if r is Itself {
            counted_up(*old(ref_count))
        } else {
            *old(ref_count)
        }),
{
    match requested {
        None => QueryAnswer::Fail,
        Some(iid) => {
            if !out_given {
                return QueryAnswer::Fail;
            }
            let known = iid == IID_IUNKNOWN || supports(supported, iid);
            // Weak-reference sources resolve callbacks without building a proxy;
            // a missing source deadlocks the framework's advise call.
            if iid == IID_IWEAK_REFERENCE_SOURCE {
                return QueryAnswer::WeakReferenceSource;
            }
            // The agility marker: an agile callback is invoked from any apartment.
            // The multiple-window callback is what makes the framework replay every
            // island's tree instead of reporting mutations only.
            if (iid == IID_IAGILE_OBJECT && agile) || iid == IID_IVISUAL_TREE_SERVICE_CALLBACK2
                || known {
                com_add_ref(ref_count);
                return QueryAnswer::Itself;
            }
            QueryAnswer::NoInterface
        },
    }
}

/// A count after one more reference.
pub open spec fn counted_up(count: u32) -> u32 {
    if count == u32::MAX {
        0
    } else {
        (count + 1) as u32
    }
}

/// A count after one reference less.
pub open spec fn counted_down(count: u32) -> u32 {
    if count == 0 {
        u32::MAX
    } else {
        (count - 1) as u32
    }
}

/// Count one more reference.
pub fn com_add_ref(ref_count: &mut u32) -> (r: u32)
    ensures
        *final(ref_count) == counted_up(*old(ref_count)),
        r == *final(ref_count),
{
    *ref_count = if *ref_count == u32::MAX {
        0
    } else {
        *ref_count + 1
    };
    *ref_count
}

/// Count one reference less: the count before, and whether the object is to be
/// handed back because that was the last one.
pub fn com_release(ref_count: &mut u32) -> (r: (u32, bool))
    ensures
        *final(ref_count) == counted_down(*old(ref_count)),
        r.0 == *old(ref_count),
        r.1 == (*old(ref_count) == 1),
{
    let left: u32 = *ref_count;
    *ref_count = if left == 0 {
        u32::MAX
    } else {
        left - 1
    };
    (left, left == 1)
}

/// A reference that is taken and given back leaves the object as it was, and does
/// not free it while another reference is held.
pub proof fn a_reference_given_back_changes_nothing(count: u32)
    ensures
        counted_down(counted_up(count)) == count,
        count >= 1 && count < u32::MAX ==> counted_up(count) != 1,
{
}

/// Are two references the same object? Both sides are resolved to their identity
/// first; a side that cannot be resolved is nobody's equal.
pub fn same_raw_identity(mine: Option<usize>, theirs: Option<usize>) -> (r: bool)
    ensures
        r == (mine is Some && theirs is Some && mine->0 == theirs->0),
{
    match mine {
        None => false,
        Some(a) => match theirs {
            None => false,
            Some(b) => a == b,
        },
    }
}

/// The four offsets of a border, in thousandths of a device-independent pixel.
#[derive(Clone, Copy, Debug, PartialEq, Eq, Structural)]
pub struct Thickness {
    pub left: i64,
    pub top: i64,
    pub right: i64,
    pub bottom: i64,
}

/// A digit of a number in lower-case hexadecimal.
pub open spec fn lower_hex_char(d: int) -> char {
    if d == 10 { 'a' } else if d == 11 { 'b' } else if d == 12 { 'c' } else if d == 13 { 'd' }
    else if d == 14 { 'e' } else if d == 15 { 'f' } else { crate::text::digit_char(d) }
}

/// A number in lower-case hexadecimal, without leading zeros.
pub open spec fn lower_hex(n: nat) -> Seq<char>
    decreases n,
{
    if n < 16 {
        seq![lower_hex_char(n as int)]
    } else {
        lower_hex(n / 16).push(lower_hex_char((n % 16) as int))
    }
}

fn lower_digit(d: u8) -> (r: &'static str)
    requires
        d < 16,
    ensures
        r@ == seq![lower_hex_char(d as int)],
{
    proof {
        reveal_strlit("0");
        reveal_strlit("1");
        reveal_strlit("2");
        reveal_strlit("3");
        reveal_strlit("4");
        reveal_strlit("5");
        reveal_strlit("6");
        reveal_strlit("7");
        reveal_strlit("8");
        reveal_strlit("9");
        reveal_strlit("a");
        reveal_strlit("b");
        reveal_strlit("c");
        reveal_strlit("d");
        reveal_strlit("e");
        reveal_strlit("f");
    }
    let r: &'static str = match d {
        0 => "0",
        1 => "1",
        2 => "2",
        3 => "3",
        4 => "4",
        5 => "5",
        6 => "6",
        7 => "7",
        8 => "8",
        9 => "9",
        10 => "a",
        11 => "b",
        12 => "c",
        13 => "d",
        14 => "e",
        _ => "f",
    };
    assert(r@ =~= seq![lower_hex_char(d as int)]);
    r
}

/// Put a number in lower-case hexadecimal behind `out`.
pub fn push_lower_hex(out: &mut String, n: u64)
    ensures
        final(out)@ == old(out)@ + lower_hex(n as nat),
    decreases n,
{
    if n < 16 {
        out.append(lower_digit(n as u8));
    } else {
        push_lower_hex(out, n / 16);
        out.append(lower_digit((n % 16) as u8));
        assert(out@ =~= old(out)@ + lower_hex(n as nat));
    }
}

/// What is known about a code address: the file name of the module that holds it,
/// and where that module starts.
pub struct AddressOwner {
    pub name: String,
    pub base: u64,
}

/// A code address as `module+0xoffset`.
pub open spec fn address_text(address: u64, owner: Option<AddressOwner>) -> Seq<char> {
    if address == 0 {
        "null"@
    } else {
        match owner {
            None => "0x"@ + lower_hex(address as nat) + " (in no loaded module)"@,
            Some(module) => if address >= module.base {
                module.name@ + "+0x"@ + lower_hex((address - module.base) as nat)
            } else {
                module.name@ + " 0x"@ + lower_hex(address as nat)
            },
        }
    }
}

/// Describe a code address as `module+0xoffset`.
///
/// A slot of a foreign table that holds garbage, or a null, only shows up as a crash
/// inside the framework. Logging what the slots point at turns that into a readable
/// answer.
pub fn describe_address(address: u64, owner: &Option<AddressOwner>) -> (r: String)
    ensures
        r@ == address_text(address, *owner),
{
    let mut out = String::new();
    if address == 0 {
        out.append("null");
        assert(out@ =~= address_text(address, *owner));
        return out;
    }
    match owner {
        None => {
            out.append("0x");
            push_lower_hex(&mut out, address);
            out.append(" (in no loaded module)");
        },
        Some(module) => {
            out.append(module.name.as_str());
            if address >= module.base {
                out.append("+0x");
                push_lower_hex(&mut out, address - module.base);
            } else {
                out.append(" 0x");
                push_lower_hex(&mut out, address);
            }
        },
    }
    assert(out@ =~= address_text(address, *owner));
    out
}

/// The bytes of a number `0xAARRGGBB` are the channels of its colour, alpha first, and the
/// colour has that number.
pub proof fn a_number_holds_its_channels(argb: u32)
    ensures
        ({
            let color = Color::of_argb(argb);
            argb == 0x100_0000 * color.a + 0x1_0000 * color.r + 0x100 * color.g + color.b
        }),
        Color::of_argb(argb).argb() == argb,
{
    let v = argb as int;
    assert(v / 0x100_0000 < 256);
}

/// Every object answers for itself, for the interfaces that it supports and for the callback of
/// several windows; with a separate object for weak references; for agility only if it is
/// agile. It knows nothing else, and a request without its arguments fails.
pub proof fn an_object_answers_for_what_it_supports(
    supported: Seq<Guid>,
    agile: bool,
    iid: Guid,
)
    ensures
        query_answer(supported, agile, None, true) is Fail,
        query_answer(supported, agile, Some(iid), false) is Fail,
        query_answer(
            supported,
            agile,
            Some(0x00000038_0000_0000_c000_000000000046),
            true,
        ) is WeakReferenceSource,
        query_answer(supported, agile, Some(0x00000000_0000_0000_c000_000000000046), true)
            is Itself,
        query_answer(supported, agile, Some(0xbad9eb88_ae77_4397_b948_5fa2db0a19ea), true)
            is Itself,
        query_answer(supported, true, Some(0x94ea2b94_e9cc_49e0_c0ff_ee64ca8f5b90), true) is Itself,
        supported.contains(iid) && iid != 0x00000038_0000_0000_c000_000000000046 ==> query_answer(
            supported,
            agile,
            Some(iid),
            true,
        ) is Itself,
        !supported.contains(iid) && iid != 0x00000038_0000_0000_c000_000000000046 && iid
            != 0x00000000_0000_0000_c000_000000000046 && iid
            != 0xbad9eb88_ae77_4397_b948_5fa2db0a19ea && !(agile && iid
            == 0x94ea2b94_e9cc_49e0_c0ff_ee64ca8f5b90) ==> query_answer(
            supported,
            agile,
            Some(iid),
            true,
        ) is NoInterface,
{
}

/// A reference counts one up or one down, and the counter wraps.
pub proof fn references_count_by_one(count: u32)
    ensures
        count < u32::MAX ==> counted_up(count) == count + 1,
        counted_up(u32::MAX) == 0,
        count > 0 ==> counted_down(count) == count - 1,
        counted_down(0) == u32::MAX,
{
}

/// The number that a hexadecimal digit stands for, from `0` to `9` and from `a` to `f`.
pub open spec fn lower_digit_value(c: char) -> int {
    if '0' <= c <= '9' {
        c as int - 48
    } else if 'a' <= c <= 'f' {
        c as int - 87
    } else {
        -1
    }
}

/// The number that a row of hexadecimal digits stands for.
pub open spec fn lower_hex_read(text: Seq<char>) -> int
    decreases text.len(),
{
    if text.len() == 0 {
        0
    } else {
        16 * lower_hex_read(text.drop_last()) + lower_digit_value(text.last())
    }
}

/// A number reads back from its hexadecimal form.
pub proof fn lower_hex_reads_back(n: nat)
    ensures
        lower_hex_read(lower_hex(n)) == n,
        lower_hex(n).len() > 0,
        n > 0 ==> lower_hex(n)[0] != '0',
    decreases n,
{
    if n < 16 {
        assert(lower_hex(n).drop_last() =~= Seq::<char>::empty());
        assert(lower_hex_read(Seq::<char>::empty()) == 0);
    } else {
        lower_hex_reads_back(n / 16);
        assert(lower_hex(n).drop_last() =~= lower_hex(n / 16));
    }
}

/// An address inside a module is told as the module's name and how far into it the address is.
#[verifier::spinoff_prover]
pub proof fn an_address_is_told_from_its_module(address: u64, owner: AddressOwner, into: u64)
    requires
        address == owner.base + into,
        address > 0,
    ensures
        ({
            let text = address_text(address, Some(owner));
            let at = owner.name@.len() as int + 3;
            &&& text.take(at) == owner.name@ + "+0x"@
            &&& lower_hex_read(text.skip(at)) == into
        }),
        address_text(0, Some(owner)) == "null"@,
{
    reveal_strlit("+0x");
    lower_hex_reads_back(into as nat);
    let text = address_text(address, Some(owner));
    let at = owner.name@.len() as int + 3;
    assert(text.take(at) =~= owner.name@ + "+0x"@);
    assert(text.skip(at) =~= lower_hex(into as nat));
}

} // verus!
