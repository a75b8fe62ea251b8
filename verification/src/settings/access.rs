//! Reading and writing a setting by its dotted path.
//!
//! The obvious implementation is an arm per setting, which would have to stay in step
//! with the tables of the page. Instead the settings are taken in the shape in which
//! they are stored, and the path walks that. There is no code per setting to get wrong,
//! and the paths are the ones that the file already uses. A path that does not exist
//! gives `None`.

use vstd::prelude::*;
use vstd::string::StrSliceExecFns;
use vstd::string::StringExecFns;

use crate::settings::schema::{
    held, magnitude, nearest, nearest_even, nearest_is_within_half, padded, round_even, whole, ONE,
};
use crate::text::{
    decimal, decimals_read_back, digits, digits_read_back, number_read, push_decimal,
    push_long_digits, same_text,
};

verus! {

/// A value as the settings window handles it. Numbers with a fraction are in millionths.
#[derive(Clone, Debug, PartialEq, Eq)]
pub enum Value {
    Bool(bool),
    Integer(i64),
    Float(i128),
    Text(String),
}

/// A [`Value`], as a value.
#[verifier::ext_equal]
pub ghost enum ValueModel {
    Bool(bool),
    Integer(int),
    Float(int),
    Text(Seq<char>),
}

impl View for Value {
    type V = ValueModel;

    open spec fn view(&self) -> ValueModel {
        match self {
            Value::Bool(value) => ValueModel::Bool(*value),
            Value::Integer(value) => ValueModel::Integer(*value as int),
            Value::Float(value) => ValueModel::Float(*value as int),
            Value::Text(value) => ValueModel::Text(value@),
        }
    }
}

/// How far apart the numbers of fifty-three binary digits are around `n`.
pub open spec fn spacing(n: int) -> int
    decreases n,
{
    if n < 0x20_0000_0000_0000 {
        1
    } else {
        2 * spacing(n / 2)
    }
}

/// An integer as a number with a fraction holds it: to fifty-three binary digits, halves
/// to the even one.
pub open spec fn rounded(value: int) -> int {
    let size = if value < 0 {
        -value
    } else {
        value
    };
    let near = nearest_even(size, spacing(size)) * spacing(size);
    if value < 0 {
        -near
    } else {
        near
    }
}

/// An integer of up to fifty-three binary digits is held as it is.
pub proof fn small_integers_are_exact(value: int)
    requires
        -0x20_0000_0000_0000 <= value <= 0x20_0000_0000_0000,
    ensures
        rounded(value) == value,
{
    reveal_with_fuel(spacing, 2);
    let size = if value < 0 {
        -value
    } else {
        value
    };
    assert(spacing(size) == 1 || (size == 0x20_0000_0000_0000 && spacing(size) == 2));
    assert(nearest_even(size, 1) == size);
    assert(nearest_even(0x20_0000_0000_0000, 2) == 0x10_0000_0000_0000);
}

/// An integer as a number with a fraction, in millionths.
pub fn millionths(value: i64) -> (r: i128)
    ensures
        r == rounded(value as int) * ONE,
{
    let size: u128 = magnitude(value as i128);
    if size < 0x20_0000_0000_0000 {
        return value as i128 * 1_000_000;
    }
    let mut top: u128 = size;
    let mut step: u128 = 1;
    while top >= 0x20_0000_0000_0000
        invariant
            0x10_0000_0000_0000 <= top,
            1 <= step,
            step == 1 ==> top == size,
            step * top <= size <= 0x8000_0000_0000_0000,
            step * spacing(top as int) == spacing(size as int),
        decreases top,
    {
        let ghost (t, s) = (top as int, step as int);
        proof {
            assert(s <= 0x1000 && 2 * s * (t / 2) <= s * t) by (nonlinear_arith)
                requires
                    s >= 1,
                    t >= 0x10_0000_0000_0000,
                    s * t <= 0x8000_0000_0000_0000,
            ;
            assert(s * (2 * spacing(t / 2)) == 2 * s * spacing(t / 2)) by (nonlinear_arith);
        }
        top = top / 2;
        step = step * 2;
    }
    proof {
        let (t, s, n) = (top as int, step as int, size as int);
        assert(s <= 0x1000) by (nonlinear_arith)
            requires
                s >= 1,
                t >= 0x10_0000_0000_0000,
                s * t <= 0x8000_0000_0000_0000,
        ;
    }
    let near: u128 = round_even(size, step);
    proof {
        let (s, n, q) = (step as int, size as int, near as int);
        assert(0 <= q * s <= n + s) by (nonlinear_arith)
            requires
                0 <= q <= n / s + 1,
                s >= 1,
                n >= 0,
        ;
    }
    let size: i128 = (near * step) as i128;
    if value < 0 {
        -(size * 1_000_000)
    } else {
        size * 1_000_000
    }
}

impl ValueModel {
    /// The number that a value stands for, in millionths.
    pub open spec fn number(self) -> Option<int> {
        match self {
            ValueModel::Integer(value) => Some(rounded(value) * ONE),
            ValueModel::Float(value) => Some(value),
            _ => None,
        }
    }
}

impl Value {
    pub fn as_bool(&self) -> (r: Option<bool>)
        ensures
            r == (match self@ {
                ValueModel::Bool(value) => Some(value),
                _ => None,
            }),
    {
        match self {
            Value::Bool(value) => Some(*value),
            _ => None,
        }
    }

    /// The number that the value stands for, in millionths.
    pub fn as_number(&self) -> (r: Option<i128>)
        ensures
            match self@.number() {
                Some(value) => r is Some && r->0 == value,
                None => r is None,
            },
    {
        match self {
            Value::Integer(value) => Some(millionths(*value)),
            Value::Float(value) => Some(*value),
            _ => None,
        }
    }

    pub fn as_text(&self) -> (r: Option<&str>)
        ensures
            match self@ {
                ValueModel::Text(text) => r is Some && r->0@ == text,
                _ => r is None,
            },
    {
        match self {
            Value::Text(value) => Some(value.as_str()),
            _ => None,
        }
    }
}

/// The settings in the shape in which they are stored: a tree of named values. Numbers
/// with a fraction are in millionths.
pub enum Node {
    Boolean(bool),
    Integer(i64),
    Float(i128),
    Text(String),
    Table(Vec<Entry>),
    /// A list or a date, which no control of the page handles.
    Other,
}

/// A named part of a table.
pub struct Entry {
    pub key: String,
    pub node: Node,
}

/// A [`Node`], as a value.
#[verifier::ext_equal]
pub ghost enum Tree {
    Boolean(bool),
    Integer(int),
    Float(int),
    Text(Seq<char>),
    Table(Seq<(Seq<char>, Tree)>),
    Other,
}

impl Node {
    pub open spec fn model(self) -> Tree
        decreases self,
    {
        match self {
            Node::Boolean(value) => Tree::Boolean(value),
            Node::Integer(value) => Tree::Integer(value as int),
            Node::Float(value) => Tree::Float(value as int),
            Node::Text(value) => Tree::Text(value@),
            Node::Table(entries) => Tree::Table(
                Seq::new(
                    entries@.len(),
                    |i: int|
                        if 0 <= i < entries@.len() {
                            (entries@[i].key@, entries@[i].node.model())
                        } else {
                            arbitrary()
                        },
                ),
            ),
            Node::Other => Tree::Other,
        }
    }
}

/// The named parts of a table.
pub open spec fn parts_of(entries: Seq<Entry>) -> Seq<(Seq<char>, Tree)> {
    Seq::new(entries.len(), |i: int| (entries[i].key@, entries[i].node.model()))
}

proof fn lemma_table(entries: Vec<Entry>)
    ensures
        Node::Table(entries).model() == Tree::Table(parts_of(entries@)),
{
    assert(Node::Table(entries).model()->Table_0 =~= parts_of(entries@));
}

/// Where a name stands first in a table.
pub open spec fn place(parts: Seq<(Seq<char>, Tree)>, key: Seq<char>) -> Option<int>
    decreases parts.len(),
{
    if parts.len() == 0 {
        None
    } else {
        match place(parts.drop_last(), key) {
            Some(i) => Some(i),
            None => if parts.last().0 == key {
                Some(parts.len() - 1)
            } else {
                None
            },
        }
    }
}

proof fn lemma_place(parts: Seq<(Seq<char>, Tree)>, key: Seq<char>)
    ensures
        match place(parts, key) {
            Some(i) => 0 <= i < parts.len() && parts[i].0 == key && (forall|j: int|
                0 <= j < i ==> (#[trigger] parts[j]).0 != key),
            None => forall|j: int| 0 <= j < parts.len() ==> (#[trigger] parts[j]).0 != key,
        },
    decreases parts.len(),
{
    if parts.len() > 0 {
        let before = parts.drop_last();
        lemma_place(before, key);
        match place(before, key) {
            Some(i) => {
                assert(before[i] == parts[i]);
                assert forall|j: int| 0 <= j < i implies (#[trigger] parts[j]).0 != key by {
                    assert(before[j] == parts[j]);
                }
            },
            None => {
                assert forall|j: int| 0 <= j < parts.len() - 1 implies (#[trigger] parts[j]).0
                    != key by {
                    assert(before[j] == parts[j]);
                }
            },
        }
    }
}

/// The first place is the one that the characterisation names.
proof fn lemma_place_is(parts: Seq<(Seq<char>, Tree)>, key: Seq<char>, at: int)
    requires
        0 <= at < parts.len(),
        parts[at].0 == key,
        forall|j: int| 0 <= j < at ==> (#[trigger] parts[j]).0 != key,
    ensures
        place(parts, key) == Some(at),
{
    lemma_place(parts, key);
    match place(parts, key) {
        Some(i) => {
            if i < at {
                assert(parts[i].0 != key);
            }
        },
        None => {},
    }
}

/// The parts of a path: what stands between its dots.
pub open spec fn segments(path: Seq<char>) -> Seq<Seq<char>>
    decreases path.len(),
{
    if path.len() == 0 {
        seq![Seq::<char>::empty()]
    } else {
        let before = segments(path.drop_last());
        if path.last() == '.' {
            before.push(Seq::<char>::empty())
        } else {
            before.update(before.len() - 1, before.last().push(path.last()))
        }
    }
}

proof fn lemma_segments(path: Seq<char>)
    ensures
        segments(path).len() >= 1,
    decreases path.len(),
{
    if path.len() > 0 {
        lemma_segments(path.drop_last());
    }
}

impl Tree {
    /// What a tree holds under a name: nothing, unless it is a table with that name.
    pub open spec fn child(self, key: Seq<char>) -> Option<Tree> {
        match self {
            Tree::Table(parts) => match place(parts, key) {
                Some(i) => Some(parts[i].1),
                None => None,
            },
            _ => None,
        }
    }

    /// What a tree holds at the end of a path.
    pub open spec fn at(self, path: Seq<Seq<char>>) -> Option<Tree>
        decreases path.len(),
    {
        if path.len() == 0 {
            Some(self)
        } else {
            match self.child(path.first()) {
                Some(child) => child.at(path.drop_first()),
                None => None,
            }
        }
    }

    /// The tree with another value at the end of a path that it has.
    pub open spec fn with(self, path: Seq<Seq<char>>, leaf: Tree) -> Tree
        decreases path.len(),
    {
        if path.len() == 0 {
            leaf
        } else {
            match self {
                Tree::Table(parts) => match place(parts, path.first()) {
                    Some(i) => Tree::Table(
                        parts.update(
                            i,
                            (parts[i].0, parts[i].1.with(path.drop_first(), leaf)),
                        ),
                    ),
                    None => self,
                },
                _ => self,
            }
        }
    }

    /// The value that a leaf stands for.
    pub open spec fn value(self) -> Option<ValueModel> {
        match self {
            Tree::Boolean(value) => Some(ValueModel::Bool(value)),
            Tree::Integer(value) => Some(ValueModel::Integer(value)),
            Tree::Float(value) => Some(ValueModel::Float(value)),
            Tree::Text(value) => Some(ValueModel::Text(value)),
            Tree::Table(_) => None,
            Tree::Other => None,
        }
    }
}

/// The digits behind the point of a number of millionths, without zeros at the end.
pub open spec fn fraction_digits(rest: nat, places: nat) -> Seq<char>
    decreases places,
{
    if places == 0 || rest == 0 {
        Seq::empty()
    } else if rest % 10 == 0 {
        fraction_digits(rest / 10, (places - 1) as nat)
    } else {
        crate::settings::schema::padded(rest, places)
    }
}

/// A number of millionths in decimal, as short as it goes.
pub open spec fn plain(value: int) -> Seq<char> {
    let magnitude = if value < 0 {
        -value
    } else {
        value
    };
    let sign = if value < 0 {
        seq!['-']
    } else {
        Seq::<char>::empty()
    };
    let whole_part = crate::text::digits((magnitude / 1_000_000) as nat);
    let rest = (magnitude % 1_000_000) as nat;
    if rest == 0 {
        sign + whole_part
    } else {
        sign + whole_part + seq!['.'] + fraction_digits(rest, 6)
    }
}

/// What is stored when `value` is written over `existing`: the value in the type that is
/// there already. `None` where the two do not go together.
pub open spec fn coerced(existing: Tree, value: ValueModel) -> Option<Tree> {
    match (existing, value) {
        (Tree::Boolean(_), ValueModel::Bool(value)) => Some(Tree::Boolean(value)),
        (Tree::Integer(_), ValueModel::Integer(value)) => Some(Tree::Integer(value)),
        (Tree::Integer(_), ValueModel::Float(value)) => Some(
            Tree::Integer(held(nearest(value, ONE as int))),
        ),
        (Tree::Float(_), ValueModel::Float(value)) => Some(Tree::Float(value)),
        (Tree::Float(_), ValueModel::Integer(value)) => Some(Tree::Float(rounded(value) * ONE)),
        (Tree::Text(_), ValueModel::Text(value)) => Some(Tree::Text(value)),
        (Tree::Text(_), ValueModel::Integer(value)) => Some(Tree::Text(decimal(value))),
        (Tree::Text(_), ValueModel::Float(value)) => Some(Tree::Text(plain(value))),
        _ => None,
    }
}

/// The settings with `value` written at `path`, or `None` where that is refused: the path
/// does not exist, it names a group, or the value does not go with what is there.
pub open spec fn written(root: Tree, path: Seq<char>, value: ValueModel) -> Option<Tree> {
    match root.at(segments(path)) {
        Some(existing) => match coerced(existing, value) {
            Some(leaf) => Some(root.with(segments(path), leaf)),
            None => None,
        },
        None => None,
    }
}

/// Split a path at its dots.
fn split(path: &str) -> (r: Vec<String>)
    ensures
        r@.len() == segments(path@).len(),
        r@.len() >= 1,
        forall|i: int| 0 <= i < r@.len() ==> (#[trigger] r@[i])@ == segments(path@)[i],
{
    let n: usize = path.unicode_len();
    let mut parts: Vec<String> = Vec::new();
    let mut start: usize = 0;
    let mut i: usize = 0;
    assert(path@.take(0) =~= Seq::<char>::empty());
    assert(path@.subrange(0, 0) =~= Seq::<char>::empty());
    while i < n
        invariant
            n == path@.len(),
            0 <= start <= i <= n,
            segments(path@.take(i as int)).len() == parts@.len() + 1,
            forall|k: int|
                0 <= k < parts@.len() ==> (#[trigger] parts@[k])@ == segments(
                    path@.take(i as int),
                )[k],
            segments(path@.take(i as int)).last() == path@.subrange(start as int, i as int),
        decreases n - i,
    {
        let ghost before = segments(path@.take(i as int));
        proof {
            let next = path@.take(i + 1);
            assert(next.drop_last() =~= path@.take(i as int));
            assert(next.last() == path@[i as int]);
        }
        if path.get_char(i) == '.' {
            parts.push(path.substring_char(start, i).to_owned());
            start = i + 1;
            assert(path@.subrange(i + 1, i + 1) =~= Seq::<char>::empty());
        } else {
            assert(path@.subrange(start as int, i as int).push(path@[i as int])
                =~= path@.subrange(start as int, i + 1));
        }
        i = i + 1;
    }
    assert(path@.take(n as int) =~= path@);
    parts.push(path.substring_char(start, n).to_owned());
    parts
}

/// Where `key` stands first among some entries.
fn find(entries: &Vec<Entry>, key: &str) -> (r: Option<usize>)
    ensures
        match place(parts_of(entries@), key@) {
            Some(i) => r is Some && r->0 == i && 0 <= i < entries@.len(),
            None => r is None,
        },
{
    let ghost parts = parts_of(entries@);
    proof {
        lemma_place(parts, key@);
    }
    let mut i: usize = 0;
    while i < entries.len()
        invariant
            parts == parts_of(entries@),
            0 <= i <= entries@.len(),
            forall|j: int| 0 <= j < i ==> (#[trigger] parts[j]).0 != key@,
        decreases entries@.len() - i,
    {
        assert(parts[i as int].0 == entries@[i as int].key@);
        if same_text(entries[i].key.as_str(), key) {
            proof {
                lemma_place_is(parts, key@, i as int);
            }
            return Some(i);
        }
        i = i + 1;
    }
    proof {
        lemma_place(parts, key@);
    }
    None
}

/// The node at the end of a path, or `None` when the path does not resolve.
fn leaf<'a>(root: &'a Node, path: &Vec<String>, from: usize) -> (r: Option<&'a Node>)
    requires
        from <= path@.len(),
    ensures
        match root.model().at(Seq::new((path@.len() - from) as nat, |i: int| path@[from + i]@)) {
            Some(tree) => r is Some && r->0.model() == tree,
            None => r is None,
        },
    decreases path@.len() - from,
{
    let ghost keys = Seq::new((path@.len() - from) as nat, |i: int| path@[from + i]@);
    if from == path.len() {
        return Some(root);
    }
    match root {
        Node::Table(entries) => {
            proof {
                lemma_table(*entries);
                assert(keys.first() == path@[from as int]@);
                assert(keys.drop_first() =~= Seq::new(
                    (path@.len() - (from + 1)) as nat,
                    |i: int| path@[from + 1 + i]@,
                ));
            }
            match find(entries, path[from].as_str()) {
                Some(i) => {
                    assert(parts_of(entries@)[i as int].1 == entries@[i as int].node.model());
                    leaf(&entries[i].node, path, from + 1)
                },
                None => None,
            }
        },
        _ => None,
    }
}

fn to_value(raw: &Node) -> (r: Option<Value>)
    ensures
        match raw.model().value() {
            Some(value) => r is Some && r->0@ == value,
            None => r is None,
        },
{
    match raw {
        Node::Boolean(value) => Some(Value::Bool(*value)),
        Node::Integer(value) => Some(Value::Integer(*value)),
        Node::Float(value) => Some(Value::Float(*value)),
        Node::Text(value) => Some(Value::Text(value.clone())),
        _ => None,
    }
}

/// What is read at a path: nothing when it does not resolve, or names a group.
pub open spec fn reading(root: Tree, path: Seq<char>) -> Option<ValueModel> {
    match root.at(segments(path)) {
        Some(tree) => tree.value(),
        None => None,
    }
}

/// Read a setting. `None` when the path is unknown, or when it names a group rather than
/// a leaf.
pub fn read(root: &Node, path: &str) -> (r: Option<Value>)
    ensures
        match reading(root.model(), path@) {
            Some(value) => r is Some && r->0@ == value,
            None => r is None,
        },
{
    let parts: Vec<String> = split(path);
    assert(Seq::new((parts@.len() - 0) as nat, |i: int| parts@[0 + i]@) =~= segments(path@));
    match leaf(root, &parts, 0) {
        Some(node) => to_value(node),
        None => None,
    }
}

impl Node {
    /// A copy of the whole tree.
    pub fn copy(&self) -> (r: Node)
        ensures
            r.model() == self.model(),
        decreases self,
    {
        match self {
            Node::Boolean(value) => Node::Boolean(*value),
            Node::Integer(value) => Node::Integer(*value),
            Node::Float(value) => Node::Float(*value),
            Node::Text(value) => Node::Text(value.clone()),
            Node::Table(entries) => {
                let mut copies: Vec<Entry> = Vec::new();
                let mut i: usize = 0;
                while i < entries.len()
                    invariant
                        *self == Node::Table(*entries),
                        copies@.len() == i <= entries@.len(),
                        forall|k: int|
                            0 <= k < i ==> (#[trigger] copies@[k]).key@ == entries@[k].key@
                                && copies@[k].node.model() == entries@[k].node.model(),
                    decreases entries@.len() - i,
                {
                    proof {
                        assert(decreases_to!(*self => self->Table_0));
                        assert(self->Table_0 == *entries);
                        assert(decreases_to!(*entries => entries@));
                        assert(decreases_to!(entries@ => entries@[i as int]));
                        assert(decreases_to!(entries@[i as int] => entries@[i as int].node));
                    }
                    let node: Node = entries[i].node.copy();
                    copies.push(Entry { key: entries[i].key.clone(), node });
                    i = i + 1;
                }
                proof {
                    lemma_table(*entries);
                    lemma_table(copies);
                    assert(parts_of(copies@) =~= parts_of(entries@));
                }
                Node::Table(copies)
            },
            Node::Other => Node::Other,
        }
    }
}

fn push_fraction(out: &mut String, rest: u64, places: u8)
    requires
        places <= 6,
    ensures
        final(out)@ == old(out)@ + fraction_digits(rest as nat, places as nat),
    decreases places,
{
    if places == 0 || rest == 0 {
        assert(out@ =~= old(out)@ + fraction_digits(rest as nat, places as nat));
    } else if rest % 10 == 0 {
        push_fraction(out, rest / 10, places - 1);
    } else {
        crate::settings::schema::push_padded(out, rest, places);
    }
}

/// A number of millionths in decimal, as short as it goes.
pub(crate) fn plain_text(value: i128) -> (r: String)
    ensures
        r@ == plain(value as int),
{
    let mut out: String = String::new();
    crate::settings::schema::push_sign(&mut out, value);
    let magnitude: u128 = crate::settings::schema::magnitude(value);
    push_long_digits(&mut out, magnitude / 1_000_000);
    let rest: u64 = (magnitude % 1_000_000) as u64;
    if rest != 0 {
        proof {
            reveal_strlit(".");
            assert("."@ =~= seq!['.']);
        }
        out.append(".");
        push_fraction(&mut out, rest, 6);
    }
    assert(out@ =~= plain(value as int));
    out
}

pub(crate) fn decimal_text(value: i64) -> (r: String)
    ensures
        r@ == decimal(value as int),
{
    let mut out: String = String::new();
    push_decimal(&mut out, value);
    assert(out@ =~= decimal(value as int));
    out
}

/// [`coerced`].
fn coerce(existing: &Node, value: &Value) -> (r: Option<Node>)
    ensures
        match coerced(existing.model(), value@) {
            Some(tree) => r is Some && r->0.model() == tree,
            None => r is None,
        },
{
    match (existing, value) {
        (Node::Boolean(_), Value::Bool(value)) => Some(Node::Boolean(*value)),
        (Node::Integer(_), Value::Integer(value)) => Some(Node::Integer(*value)),
        (Node::Integer(_), Value::Float(value)) => Some(Node::Integer(whole(*value))),
        (Node::Float(_), Value::Float(value)) => Some(Node::Float(*value)),
        (Node::Float(_), Value::Integer(value)) => Some(Node::Float(millionths(*value))),
        (Node::Text(_), Value::Text(value)) => Some(Node::Text(value.clone())),
        (Node::Text(_), Value::Integer(value)) => Some(Node::Text(decimal_text(*value))),
        (Node::Text(_), Value::Float(value)) => Some(Node::Text(plain_text(*value))),
        _ => None,
    }
}

/// The tree with another node at the end of a path that it has.
fn replaced(root: &Node, path: &Vec<String>, from: usize, new: Node) -> (r: Node)
    requires
        from <= path@.len(),
    ensures
        r.model() == root.model().with(
            Seq::new((path@.len() - from) as nat, |i: int| path@[from + i]@),
            new.model(),
        ),
    decreases path@.len() - from,
{
    let ghost keys = Seq::new((path@.len() - from) as nat, |i: int| path@[from + i]@);
    if from == path.len() {
        return new;
    }
    match root {
        Node::Table(entries) => {
            proof {
                lemma_table(*entries);
                assert(keys.first() == path@[from as int]@);
                assert(keys.drop_first() =~= Seq::new(
                    (path@.len() - (from + 1)) as nat,
                    |i: int| path@[from + 1 + i]@,
                ));
            }
            match find(entries, path[from].as_str()) {
                Some(at) => {
                    let ghost old_parts = parts_of(entries@);
                    let inner: Node = replaced(&entries[at].node, path, from + 1, new);
                    let ghost inner_model = inner.model();
                    let mut copies: Vec<Entry> = Vec::new();
                    let mut slot: Option<Node> = Some(inner);
                    let mut i: usize = 0;
                    while i < entries.len()
                        invariant
                            copies@.len() == i <= entries@.len(),
                            at < entries@.len(),
                            slot is Some == (i <= at),
                            slot is Some ==> slot->0.model() == inner_model,
                            forall|k: int|
                                0 <= k < i ==> (#[trigger] copies@[k]).key@ == entries@[k].key@
                                    && copies@[k].node.model() == (if k == at {
                                    inner_model
                                } else {
                                    entries@[k].node.model()
                                }),
                        decreases entries@.len() - i,
                    {
                        let node: Node = if i == at {
                            match slot.take() {
                                Some(node) => node,
                                None => Node::Other,
                            }
                        } else {
                            entries[i].node.copy()
                        };
                        copies.push(Entry { key: entries[i].key.clone(), node });
                        i = i + 1;
                    }
                    proof {
                        lemma_table(copies);
                        assert(parts_of(copies@) =~= old_parts.update(
                            at as int,
                            (old_parts[at as int].0, inner_model),
                        ));
                    }
                    Node::Table(copies)
                },
                None => root.copy(),
            }
        },
        _ => root.copy(),
    }
}

/// The settings with `value` written at `path`, or `None` where that is refused.
///
/// The value is coerced to the type that the setting already holds: writing a fraction
/// over an integer stores an integer, and writing a number over a text stores its decimal
/// form. That keeps a slider, which naturally produces fractions, from changing the type
/// in the file.
pub fn staged(root: &Node, path: &str, value: &Value) -> (r: Option<Node>)
    ensures
        match written(root.model(), path@, value@) {
            Some(tree) => r is Some && r->0.model() == tree,
            None => r is None,
        },
{
    let parts: Vec<String> = split(path);
    assert(Seq::new((parts@.len() - 0) as nat, |i: int| parts@[0 + i]@) =~= segments(path@));
    match leaf(root, &parts, 0) {
        Some(existing) => match coerce(existing, value) {
            Some(new) => Some(replaced(root, &parts, 0, new)),
            None => None,
        },
        None => None,
    }
}

/// Write a setting, returning whether it was stored.
///
/// `takes` says whether the application can make its own settings of a tree again: a
/// path may exist and the value still be none that the setting can have. What is refused
/// leaves the settings as they were.
pub fn write<F: Fn(&Node) -> bool>(root: &mut Node, path: &str, value: &Value, takes: F) -> (r:
    bool)
    requires
        forall|node: &Node| takes.requires((node,)),
    ensures
        match written(old(root).model(), path@, value@) {
            Some(tree) => {
                &&& exists|node: Node|
                    #![trigger node.model()]
                    node.model() == tree && takes.ensures((&node,), r)
                &&& final(root).model() == (if r {
                    tree
                } else {
                    old(root).model()
                })
            },
            None => !r && *final(root) == *old(root),
        },
{
    match staged(root, path, value) {
        Some(next) => {
            if takes(&next) {
                *root = next;
                true
            } else {
                assert(next.model() == written(old(root).model(), path@, value@)->0);
                false
            }
        },
        None => false,
    }
}

/// Flip a switch, returning its new state; `None` when there is no such switch, or the
/// settings do not take it.
pub fn toggle<F: Fn(&Node) -> bool>(root: &mut Node, path: &str, takes: F) -> (r: Option<bool>)
    requires
        forall|node: &Node| takes.requires((node,)),
    ensures
        match reading(old(root).model(), path@) {
            Some(ValueModel::Bool(on)) => {
                let tree = old(root).model().with(segments(path@), Tree::Boolean(!on));
                &&& exists|node: Node|
                    #![trigger node.model()]
                    node.model() == tree && takes.ensures((&node,), r is Some)
                &&& r is Some ==> r->0 == !on && final(root).model() == tree
                &&& r is None ==> final(root).model() == old(root).model()
            },
            _ => r is None && *final(root) == *old(root),
        },
{
    let current: Option<bool> = match read(root, path) {
        Some(value) => value.as_bool(),
        None => None,
    };
    match current {
        Some(on) => {
            let stored: bool = write(root, path, &Value::Bool(!on), takes);
            if stored {
                Some(!on)
            } else {
                None
            }
        },
        None => None,
    }
}

/// A path that resolves still resolves after a write at its end, to what was written.
pub proof fn a_written_leaf_is_read_back(root: Tree, path: Seq<Seq<char>>, leaf: Tree)
    requires
        root.at(path) is Some,
    ensures
        root.with(path, leaf).at(path) == Some(leaf),
    decreases path.len(),
{
    if path.len() > 0 {
        let parts = root->Table_0;
        lemma_place(parts, path.first());
        let i = place(parts, path.first())->0;
        let inner = parts[i].1;
        a_written_leaf_is_read_back(inner, path.drop_first(), leaf);
        let after = parts.update(i, (parts[i].0, inner.with(path.drop_first(), leaf)));
        assert forall|j: int| 0 <= j < i implies (#[trigger] after[j]).0 != path.first() by {
            assert(after[j] == parts[j]);
        }
        lemma_place_is(after, path.first(), i);
    }
}

/// What is written is what is read: a write that goes through gives the value back, in
/// the type that the setting already had.
pub proof fn a_write_is_read_back(root: Tree, path: Seq<char>, value: ValueModel)
    requires
        written(root, path, value) is Some,
    ensures
        reading(written(root, path, value)->0, path) == coerced(
            root.at(segments(path))->0,
            value,
        )->0.value(),
        reading(written(root, path, value)->0, path) is Some,
{
    a_written_leaf_is_read_back(
        root,
        segments(path),
        coerced(root.at(segments(path))->0, value)->0,
    );
}

/// A value of the type that is stored comes back as it was.
pub proof fn a_value_of_the_same_type_comes_back(root: Tree, path: Seq<char>, value: ValueModel)
    requires
        match (reading(root, path), value) {
            (Some(ValueModel::Bool(_)), ValueModel::Bool(_)) => true,
            (Some(ValueModel::Integer(_)), ValueModel::Integer(_)) => true,
            (Some(ValueModel::Float(_)), ValueModel::Float(_)) => true,
            (Some(ValueModel::Text(_)), ValueModel::Text(_)) => true,
            _ => false,
        },
    ensures
        written(root, path, value) is Some,
        reading(written(root, path, value)->0, path) == Some(value),
{
    a_write_is_read_back(root, path, value);
}

/// A write keeps the type of the setting: an integer stays an integer.
pub proof fn a_write_keeps_the_type(root: Tree, path: Seq<char>, value: ValueModel)
    requires
        written(root, path, value) is Some,
    ensures
        match (reading(root, path), reading(written(root, path, value)->0, path)) {
            (Some(ValueModel::Bool(_)), Some(ValueModel::Bool(_))) => true,
            (Some(ValueModel::Integer(_)), Some(ValueModel::Integer(_))) => true,
            (Some(ValueModel::Float(_)), Some(ValueModel::Float(_))) => true,
            (Some(ValueModel::Text(_)), Some(ValueModel::Text(_))) => true,
            _ => false,
        },
{
    a_write_is_read_back(root, path, value);
}

/// A write leaves alone what it does not name: a path that neither leads to the written
/// leaf nor through it holds what it held.
pub proof fn a_write_leaves_the_others(
    root: Tree,
    path: Seq<Seq<char>>,
    leaf: Tree,
    other: Seq<Seq<char>>,
)
    requires
        !other.is_prefix_of(path),
        !path.is_prefix_of(other),
    ensures
        root.with(path, leaf).at(other) == root.at(other),
    decreases path.len(),
{
    assert(path.len() > 0) by {
        if path.len() == 0 {
            assert(path =~= other.take(0));
            assert(path.is_prefix_of(other));
        }
    }
    assert(other.len() > 0) by {
        if other.len() == 0 {
            assert(other =~= path.take(0));
            assert(other.is_prefix_of(path));
        }
    }
    match root {
        Tree::Table(parts) => {
            lemma_place(parts, path.first());
            match place(parts, path.first()) {
                Some(i) => {
                    let inner = parts[i].1.with(path.drop_first(), leaf);
                    let after = parts.update(i, (parts[i].0, inner));
                    lemma_place(parts, other.first());
                    lemma_same_places(parts, after, other.first());
                    if path.first() == other.first() {
                        let p = path.drop_first();
                        let o = other.drop_first();
                        assert(!o.is_prefix_of(p)) by {
                            if o.is_prefix_of(p) {
                                assert forall|k: int| 0 <= k < other.len() implies other[k]
                                    == path[k] by {
                                    if k > 0 {
                                        assert(o[k - 1] == p[k - 1]);
                                    }
                                }
                                assert(other =~= path.subrange(0, other.len() as int));
                            }
                        }
                        assert(!p.is_prefix_of(o)) by {
                            if p.is_prefix_of(o) {
                                assert forall|k: int| 0 <= k < path.len() implies path[k]
                                    == other[k] by {
                                    if k > 0 {
                                        assert(p[k - 1] == o[k - 1]);
                                    }
                                }
                                assert(path =~= other.subrange(0, path.len() as int));
                            }
                        }
                        a_write_leaves_the_others(parts[i].1, p, leaf, o);
                    } else {
                        match place(parts, other.first()) {
                            Some(j) => {
                                assert(j != i);
                                assert(after[j] == parts[j]);
                            },
                            None => {},
                        }
                    }
                },
                None => {},
            }
        },
        _ => {},
    }
}

/// Tables with the same names have them in the same places.
proof fn lemma_same_places(
    before: Seq<(Seq<char>, Tree)>,
    after: Seq<(Seq<char>, Tree)>,
    key: Seq<char>,
)
    requires
        before.len() == after.len(),
        forall|i: int| 0 <= i < before.len() ==> (#[trigger] before[i]).0 == (after[i]).0,
    ensures
        place(before, key) == place(after, key),
{
    lemma_place(before, key);
    match place(before, key) {
        Some(i) => {
            assert forall|j: int| 0 <= j < i implies (#[trigger] after[j]).0 != key by {
                assert(before[j].0 != key);
            }
            assert(before[i].0 == after[i].0);
            lemma_place_is(after, key, i);
        },
        None => {
            lemma_place(after, key);
            match place(after, key) {
                Some(j) => {
                    assert(before[j].0 == after[j].0);
                },
                None => {},
            }
        },
    }
}

/// Writing at a path twice is writing the second time alone.
pub proof fn a_later_write_wins(root: Tree, path: Seq<Seq<char>>, first: Tree, second: Tree)
    requires
        root.at(path) is Some,
    ensures
        root.with(path, first).with(path, second) == root.with(path, second),
    decreases path.len(),
{
    if path.len() > 0 {
        let parts = root->Table_0;
        lemma_place(parts, path.first());
        let i = place(parts, path.first())->0;
        let inner = parts[i].1;
        a_later_write_wins(inner, path.drop_first(), first, second);
        let after = parts.update(i, (parts[i].0, inner.with(path.drop_first(), first)));
        lemma_same_places(parts, after, path.first());
        let one = parts.update(i, (parts[i].0, inner.with(path.drop_first(), second)));
        let two = after.update(i, (after[i].0, after[i].1.with(path.drop_first(), second)));
        assert(one =~= two);
    }
}

/// Writing back what is there changes nothing.
pub proof fn writing_back_changes_nothing(root: Tree, path: Seq<Seq<char>>)
    requires
        root.at(path) is Some,
    ensures
        root.with(path, root.at(path)->0) == root,
    decreases path.len(),
{
    if path.len() > 0 {
        let parts = root->Table_0;
        lemma_place(parts, path.first());
        let i = place(parts, path.first())->0;
        let inner = parts[i].1;
        writing_back_changes_nothing(inner, path.drop_first());
        assert(parts.update(i, (parts[i].0, inner)) =~= parts);
    }
}

/// Flipping a switch twice puts everything back as it was.
pub proof fn flipping_twice_changes_nothing(root: Tree, path: Seq<char>, on: bool)
    requires
        reading(root, path) == Some(ValueModel::Bool(on)),
    ensures
        ({
            let once = root.with(segments(path), Tree::Boolean(!on));
            &&& reading(once, path) == Some(ValueModel::Bool(!on))
            &&& once.with(segments(path), Tree::Boolean(on)) == root
        }),
{
    let keys = segments(path);
    a_written_leaf_is_read_back(root, keys, Tree::Boolean(!on));
    a_later_write_wins(root, keys, Tree::Boolean(!on), Tree::Boolean(on));
    assert(root.at(keys) == Some(Tree::Boolean(on)));
    writing_back_changes_nothing(root, keys);
}

/// The parts of a path with a dot between each two.
pub open spec fn joined(parts: Seq<Seq<char>>) -> Seq<char>
    decreases parts.len(),
{
    if parts.len() == 0 {
        Seq::empty()
    } else if parts.len() == 1 {
        parts[0]
    } else {
        joined(parts.drop_last()).push('.') + parts.last()
    }
}

/// A path is its parts with a dot between each two, and no part holds a dot.
#[verifier::spinoff_prover]
pub proof fn a_path_is_split_at_its_dots(path: Seq<char>)
    ensures
        joined(segments(path)) == path,
        segments(path).len() >= 1,
        forall|i: int| 0 <= i < segments(path).len() ==> !(#[trigger] segments(path)[i]).contains('.'),
    decreases path.len(),
{
    if path.len() > 0 {
        let before = path.drop_last();
        a_path_is_split_at_its_dots(before);
        let parts = segments(before);
        let all = segments(path);
        if path.last() == '.' {
            assert(all.drop_last() =~= parts);
            assert(joined(all) =~= path);
        } else {
            let longer = parts.last().push(path.last());
            assert(all.last() == longer);
            assert(all.drop_last() =~= parts.drop_last());
            if parts.len() > 1 {
                assert(joined(all) =~= joined(parts).push(path.last()));
            } else {
                assert(joined(all) =~= joined(parts).push(path.last()));
            }
            assert(joined(all) =~= path);
            assert(!longer.contains('.')) by {
                if longer.contains('.') {
                    let k = longer.index_of('.');
                    assert(k < parts.last().len());
                    assert(parts.last()[k] == '.');
                    assert(parts[parts.len() - 1].contains('.'));
                }
            }
            assert forall|i: int| 0 <= i < all.len() implies !(#[trigger] all[i]).contains('.') by {
                if i < parts.len() - 1 {
                    assert(all[i] == parts[i]);
                }
            }
        }
    } else {
        assert(joined(segments(path)) =~= path);
    }
}

/// A name leads to the first entry of a table that has it, and nowhere in anything that is no
/// table; each leaf reads as what it holds.
pub proof fn a_name_leads_to_its_entry(parts: Seq<(Seq<char>, Tree)>, key: Seq<char>, i: int, leaf: Tree)
    requires
        0 <= i < parts.len(),
        parts[i].0 == key,
        forall|j: int| 0 <= j < i ==> (#[trigger] parts[j]).0 != key,
    ensures
        Tree::Table(parts).child(key) == Some(parts[i].1),
        Tree::Table(parts).at(seq![key]) == Some(parts[i].1),
        !(leaf is Table) ==> leaf.child(key) is None,
        leaf.at(Seq::empty()) == Some(leaf),
        leaf matches Tree::Boolean(on) ==> leaf.value() == Some(ValueModel::Bool(on)),
        leaf matches Tree::Integer(n) ==> leaf.value() == Some(ValueModel::Integer(n)),
        leaf matches Tree::Float(n) ==> leaf.value() == Some(ValueModel::Float(n)),
        leaf matches Tree::Text(text) ==> leaf.value() == Some(ValueModel::Text(text)),
        leaf is Table || leaf is Other ==> leaf.value() is None,
{
    lemma_place_is(parts, key, i);
    let root = Tree::Table(parts);
    assert(seq![key].first() == key);
    assert(seq![key].drop_first() =~= Seq::<Seq<char>>::empty());
    assert(parts[i].1.at(Seq::empty()) == Some(parts[i].1));
}

/// A number with a fraction that is written to a whole setting becomes the nearest whole one,
/// held to what a whole setting can be.
pub proof fn a_whole_setting_takes_the_nearest(old: int, value: int)
    ensures
        coerced(Tree::Integer(old), ValueModel::Float(value)) matches Some(Tree::Integer(n)) && {
            &&& i64::MIN * 1_000_000 <= value <= i64::MAX * 1_000_000 ==> -1_000_000 <= 2 * (n
                * 1_000_000 - value) <= 1_000_000
            &&& value > i64::MAX * 1_000_000 ==> n == i64::MAX
            &&& value < i64::MIN * 1_000_000 ==> n == i64::MIN
        },
{
    nearest_is_within_half(value, 1_000_000);
}

/// A whole number that is written to a setting with a fraction is that number: exactly so up to
/// fifty-three binary digits. What is read of either as a number is the same.
pub proof fn a_whole_number_keeps_its_value(old: int, value: int)
    requires
        -0x20_0000_0000_0000 <= value <= 0x20_0000_0000_0000,
    ensures
        coerced(Tree::Float(old), ValueModel::Integer(value)) == Some(
            Tree::Float(value * 1_000_000),
        ),
        ValueModel::Integer(value).number() == Some(value * 1_000_000),
        ValueModel::Float(value).number() == Some(value),
{
    small_integers_are_exact(value);
}

/// A text setting takes a number in decimal, and a text as it is.
pub proof fn a_text_setting_takes_a_number_in_decimal(old: Seq<char>, value: int, text: Seq<char>)
    ensures
        coerced(Tree::Text(old), ValueModel::Integer(value)) matches Some(Tree::Text(written)) && (
        value >= 0 ==> number_read(written) == value) && (value < 0 ==> written[0] == '-'
            && number_read(written.skip(1)) == -value),
        coerced(Tree::Text(old), ValueModel::Text(text)) == Some(Tree::Text(text)),
{
    decimals_read_back(value);
}

/// What does not go together is refused: a text or a number is no switch, a switch or a text no
/// number, a switch no text, and nothing can be written over a group.
pub proof fn a_mismatch_is_refused(existing: Tree, value: ValueModel)
    ensures
        existing is Boolean && !(value is Bool) ==> coerced(existing, value) is None,
        (existing is Integer || existing is Float) && (value is Bool || value is Text) ==> coerced(
            existing,
            value,
        ) is None,
        existing is Text && value is Bool ==> coerced(existing, value) is None,
        existing is Table || existing is Other ==> coerced(existing, value) is None,
{
}

/// Ten, so many times multiplied.
pub open spec fn tens(n: nat) -> int
    decreases n,
{
    if n == 0 {
        1
    } else {
        10 * tens((n - 1) as nat)
    }
}

proof fn lemma_padded(n: nat, places: nat)
    ensures
        padded(n, places).len() == places,
        n < tens(places) ==> number_read(padded(n, places)) == n,
    decreases places,
{
    if places > 0 {
        lemma_padded(n / 10, (places - 1) as nat);
        let text = padded(n, places);
        assert(text.drop_last() =~= padded(n / 10, (places - 1) as nat));
        assert(text.last() == crate::text::digit_char((n % 10) as int));
    } else {
        assert(padded(n, 0) =~= Seq::<char>::empty());
    }
}

proof fn lemma_fraction(rest: nat, places: nat)
    requires
        rest < tens(places),
        rest > 0,
    ensures
        ({
            let text = fraction_digits(rest, places);
            &&& 0 < text.len() <= places
            &&& number_read(text) * tens((places - text.len()) as nat) == rest
            &&& text.last() != '0'
        }),
    decreases places,
{
    if rest % 10 == 0 {
        lemma_fraction(rest / 10, (places - 1) as nat);
        let text = fraction_digits(rest / 10, (places - 1) as nat);
        let k = (places - 1 - text.len()) as nat;
        assert(tens(k + 1) == 10 * tens(k));
        let v = number_read(text);
        assert(v * (10 * tens(k)) == 10 * (v * tens(k))) by (nonlinear_arith);
    } else {
        lemma_padded(rest, places);
        assert(tens(0) == 1);
        let text = padded(rest, places);
        assert(text.last() == crate::text::digit_char((rest % 10) as int));
    }
}

/// A number of millionths is written as its whole part, and behind a point as many digits as
/// it takes and no zeros at the end: read back, they are the number. A minus sign stands in
/// front of what is below zero, and there is no point where there is no fraction.
#[verifier::spinoff_prover]
pub proof fn millionths_read_back(value: int)
    requires
        value >= 0,
    ensures
        value % 1_000_000 == 0 ==> plain(value) == digits((value / 1_000_000) as nat),
        value % 1_000_000 != 0 ==> ({
            let at = digits((value / 1_000_000) as nat).len() as int;
            let text = plain(value);
            let behind = text.skip(at + 1);
            &&& number_read(text.take(at)) == value / 1_000_000
            &&& text[at] == '.'
            &&& 0 < behind.len() <= 6
            &&& behind.last() != '0'
            &&& number_read(behind) * tens((6 - behind.len()) as nat) == value % 1_000_000
        }),
        value > 0 ==> plain(-value) == seq!['-'] + plain(value),
{
    let whole = digits((value / 1_000_000) as nat);
    let rest = (value % 1_000_000) as nat;
    digits_read_back((value / 1_000_000) as nat);
    let none = Seq::<char>::empty();
    if rest == 0 {
        assert(none + whole =~= whole);
    } else {
        assert(tens(6) == 1_000_000) by {
            reveal_with_fuel(tens, 7);
        }
        lemma_fraction(rest, 6);
        let behind = fraction_digits(rest, 6);
        let text = plain(value);
        assert(text =~= whole + seq!['.'] + behind);
        assert(text.take(whole.len() as int) =~= whole);
        assert(text.skip(whole.len() as int + 1) =~= behind);
    }
    if value > 0 {
        assert(plain(-value) =~= seq!['-'] + plain(value));
    }
}

/// The spacing around a number is the power of two that leaves it fifty-three binary digits.
pub proof fn the_spacing_leaves_fifty_three_digits(n: int)
    requires
        n >= 0x20_0000_0000_0000,
    ensures
        spacing(n) * 0x10_0000_0000_0000 <= n < spacing(n) * 0x20_0000_0000_0000,
        spacing(n) >= 2,
    decreases n,
{
    let half = n / 2;
    if half >= 0x20_0000_0000_0000 {
        the_spacing_leaves_fifty_three_digits(half);
    } else {
        assert(spacing(half) == 1);
    }
}

} // verus!
