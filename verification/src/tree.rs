//! The config tree: a recursive class/array/value AST, with the transforms
//! the mission composer relies on (positional offsetting, vector extraction,
//! subtree merging) and a stable text serializer.
//!
//! Every numeric scalar is an exact integer in fixed-point thousandths,
//! whether the text wrote it as a decimal (`Float`) or as an integer
//! (`Int`), so coercion and offsetting act on one scale and the composition
//! laws hold; offsets use wrapping addition, which keeps the laws total.
//! An integer-written scalar prints without a fraction while its value is
//! whole, and as a decimal once an offset moves it off the whole grid.

use crate::strutil::push_char;
use vstd::prelude::*;

verus! {

/// An element of an array value.
#[derive(Debug)]
pub enum ArrayElement {
    Str(String),
    /// A decimal-written scalar, in fixed-point thousandths.
    Float(i64),
    /// An integer-written scalar, also in fixed-point thousandths.
    Int(i64),
    Array(Vec<ArrayElement>),
}

/// A class body: optional parent reference and ordered field mapping.
/// `entries` is `None` for external declarations and deletions.
#[derive(Debug)]
pub struct ConfigClass {
    pub parent: String,
    pub is_external: bool,
    pub is_deletion: bool,
    pub entries: Option<Vec<(String, ConfigEntry)>>,
}

/// One value of a class field.
#[derive(Debug)]
pub enum ConfigEntry {
    Str(String),
    /// A decimal-written scalar, in fixed-point thousandths.
    Float(i64),
    /// An integer-written scalar, also in fixed-point thousandths.
    Int(i64),
    Array(Vec<ArrayElement>),
    Class(ConfigClass),
}

/// A whole config document: the root class body.
#[derive(Debug)]
pub struct Config {
    pub root: ConfigClass,
}

/// Mathematical model of an array element.
pub enum ElemV {
    Str(Seq<char>),
    Float(i64),
    Int(i64),
    Array(Seq<ElemV>),
}

/// Mathematical model of a class.
pub struct ClassV {
    pub parent: Seq<char>,
    pub is_external: bool,
    pub is_deletion: bool,
    pub entries: Option<Seq<(Seq<char>, EntryV)>>,
}

/// Mathematical model of an entry.
pub enum EntryV {
    Str(Seq<char>),
    Float(i64),
    Int(i64),
    Array(Seq<ElemV>),
    Class(ClassV),
}

pub open spec fn elem_view(e: ArrayElement) -> ElemV
    decreases e,
{
    match e {
        ArrayElement::Str(s) => ElemV::Str(s@),
        ArrayElement::Float(x) => ElemV::Float(x),
        ArrayElement::Int(x) => ElemV::Int(x),
        ArrayElement::Array(v) => ElemV::Array(elems_view(v@)),
    }
}

pub open spec fn elems_view(v: Seq<ArrayElement>) -> Seq<ElemV>
    decreases v,
{
    if v.len() == 0 {
        Seq::empty()
    } else {
        seq![elem_view(v[0])] + elems_view(v.drop_first())
    }
}

pub open spec fn entry_view(e: ConfigEntry) -> EntryV
    decreases e,
{
    match e {
        ConfigEntry::Str(s) => EntryV::Str(s@),
        ConfigEntry::Float(x) => EntryV::Float(x),
        ConfigEntry::Int(x) => EntryV::Int(x),
        ConfigEntry::Array(v) => EntryV::Array(elems_view(v@)),
        ConfigEntry::Class(c) => EntryV::Class(class_view(c)),
    }
}

/// The view of an entry list, as named entries over the model.
pub open spec fn entries_view(v: Seq<(String, ConfigEntry)>) -> Seq<(Seq<char>, EntryV)>
    decreases v,
{
    if v.len() == 0 {
        Seq::empty()
    } else {
        seq![(v[0].0@, entry_view(v[0].1))] + entries_view(v.drop_first())
    }
}

pub open spec fn class_view(c: ConfigClass) -> ClassV
    decreases c,
{
    ClassV {
        parent: c.parent@,
        is_external: c.is_external,
        is_deletion: c.is_deletion,
        entries: match c.entries {
            Some(v) => Some(entries_view(v@)),
            None => None,
        },
    }
}

/// `elems_view` maps the view pointwise.
pub broadcast proof fn lemma_elems_view_index(v: Seq<ArrayElement>)
    ensures
        (#[trigger] elems_view(v)).len() == v.len(),
        forall|i: int| 0 <= i < v.len() ==> elems_view(v)[i] == elem_view(v[i]),
    decreases v,
{
    if v.len() > 0 {
        lemma_elems_view_index(v.drop_first());
    }
}

/// `entries_view` maps the view pointwise.
pub broadcast proof fn lemma_entries_view_index(v: Seq<(String, ConfigEntry)>)
    ensures
        (#[trigger] entries_view(v)).len() == v.len(),
        forall|i: int|
            0 <= i < v.len() ==> entries_view(v)[i] == (v[i].0@, entry_view(v[i].1)),
    decreases v,
{
    if v.len() > 0 {
        lemma_entries_view_index(v.drop_first());
    }
}

impl View for ArrayElement {
    type V = ElemV;

    open spec fn view(&self) -> ElemV {
        elem_view(*self)
    }
}

impl View for ConfigEntry {
    type V = EntryV;

    open spec fn view(&self) -> EntryV {
        entry_view(*self)
    }
}

impl View for ConfigClass {
    type V = ClassV;

    open spec fn view(&self) -> ClassV {
        class_view(*self)
    }
}

impl View for Config {
    type V = ClassV;

    open spec fn view(&self) -> ClassV {
        class_view(self.root)
    }
}

/// A three-component offset or position vector.
#[derive(Clone, Copy, Debug, PartialEq, Eq, Structural)]
pub struct Vec3 {
    pub x: i64,
    pub y: i64,
    pub z: i64,
}

/// Wrapping addition: the library's exact, total offset arithmetic.
pub open spec fn wadd(a: i64, b: i64) -> i64 {
    vstd::wrapping::i64_specs::wrapping_add(a, b)
}

impl Vec3 {
    pub open spec fn spec_zero() -> Vec3 {
        Vec3 { x: 0, y: 0, z: 0 }
    }

    pub fn zero() -> (r: Vec3)
        ensures
            r == Vec3::spec_zero(),
    {
        Vec3 { x: 0, y: 0, z: 0 }
    }

    /// Componentwise wrapping sum.
    pub open spec fn spec_add(self, o: Vec3) -> Vec3 {
        Vec3 { x: wadd(self.x, o.x), y: wadd(self.y, o.y), z: wadd(self.z, o.z) }
    }

    pub fn add(self, o: Vec3) -> (r: Vec3)
        ensures
            r == self.spec_add(o),
    {
        Vec3 {
            x: self.x.wrapping_add(o.x),
            y: self.y.wrapping_add(o.y),
            z: self.z.wrapping_add(o.z),
        }
    }

    /// Componentwise wrapping difference.
    pub open spec fn spec_sub(self, o: Vec3) -> Vec3 {
        Vec3 {
            x: vstd::wrapping::i64_specs::wrapping_sub(self.x, o.x),
            y: vstd::wrapping::i64_specs::wrapping_sub(self.y, o.y),
            z: vstd::wrapping::i64_specs::wrapping_sub(self.z, o.z),
        }
    }

    pub fn sub(self, o: Vec3) -> (r: Vec3)
        ensures
            r == self.spec_sub(o),
    {
        Vec3 {
            x: self.x.wrapping_sub(o.x),
            y: self.y.wrapping_sub(o.y),
            z: self.z.wrapping_sub(o.z),
        }
    }

    /// The component selected by index 0, 1 or 2.
    pub open spec fn spec_component(self, i: int) -> i64 {
        if i == 0 {
            self.x
        } else if i == 1 {
            self.y
        } else {
            self.z
        }
    }
}

/// The name of the array field that carries a position.
pub open spec fn position_name() -> Seq<char> {
    "position"@
}

/// Offset one array element: numeric kinds take the wrapping increment,
/// strings and nested arrays pass through unchanged.
pub open spec fn s_offset_elem(e: ElemV, inc: i64) -> ElemV {
    match e {
        ElemV::Float(x) => ElemV::Float(wadd(x, inc)),
        ElemV::Int(x) => ElemV::Int(wadd(x, inc)),
        _ => e,
    }
}

/// Offset the first three elements of a position array componentwise;
/// elements past the third pass through unchanged.
pub open spec fn s_offset_position(v: Seq<ElemV>, off: Vec3) -> Seq<ElemV> {
    Seq::new(
        v.len(),
        |i: int|
            if i < 3 {
                s_offset_elem(v[i], off.spec_component(i))
            } else {
                v[i]
            },
    )
}

/// Offset the first entry named "position", if its value is an array.
/// If the first entry of that name holds any other kind, the list is left
/// unchanged, as a malformed node is passed through rather than rejected.
pub open spec fn s_adjust_position(
    v: Seq<(Seq<char>, EntryV)>,
    off: Vec3,
) -> Seq<(Seq<char>, EntryV)>
    decreases v,
{
    if v.len() == 0 {
        v
    } else if v[0].0 == position_name() {
        match v[0].1 {
            EntryV::Array(elems) => seq![
                (v[0].0, EntryV::Array(s_offset_position(elems, off))),
            ] + v.drop_first(),
            _ => v,
        }
    } else {
        seq![v[0]] + s_adjust_position(v.drop_first(), off)
    }
}

/// Offset every class of the list recursively: the whole transform that
/// `offset_classes` performs.
pub open spec fn s_offset_entries(
    v: Seq<(Seq<char>, EntryV)>,
    off: Vec3,
) -> Seq<(Seq<char>, EntryV)>
    decreases v,
{
    if v.len() == 0 {
        v
    } else {
        seq![(v[0].0, s_offset_entry(v[0].1, off))] + s_offset_entries(v.drop_first(), off)
    }
}

/// Offset one entry: only classes are transformed.
pub open spec fn s_offset_entry(e: EntryV, off: Vec3) -> EntryV
    decreases e,
{
    match e {
        EntryV::Class(c) => EntryV::Class(s_offset_class(c, off)),
        _ => e,
    }
}

/// Offset a class: descend into every nested class, then offset this
/// class's own position array.
pub open spec fn s_offset_class(c: ClassV, off: Vec3) -> ClassV
    decreases c,
{
    ClassV {
        parent: c.parent,
        is_external: c.is_external,
        is_deletion: c.is_deletion,
        entries: match c.entries {
            Some(es) => Some(s_adjust_position(s_offset_entries(es, off), off)),
            None => None,
        },
    }
}

/// `s_offset_entries` maps entries pointwise.
pub broadcast proof fn lemma_s_offset_entries_index(v: Seq<(Seq<char>, EntryV)>, off: Vec3)
    ensures
        (#[trigger] s_offset_entries(v, off)).len() == v.len(),
        forall|i: int|
            0 <= i < v.len() ==> s_offset_entries(v, off)[i] == (
                v[i].0,
                s_offset_entry(v[i].1, off),
            ),
    decreases v,
{
    if v.len() > 0 {
        lemma_s_offset_entries_index(v.drop_first(), off);
    }
}

} // verus!

verus! {

/// With no entry named "position", the adjustment changes nothing.
proof fn lemma_adjust_none(v: Seq<(Seq<char>, EntryV)>, off: Vec3)
    requires
        forall|i: int| 0 <= i < v.len() ==> (#[trigger] v[i]).0 != position_name(),
    ensures
        s_adjust_position(v, off) == v,
    decreases v,
{
    if v.len() > 0 {
        lemma_adjust_none(v.drop_first(), off);
        assert(seq![v[0]] + v.drop_first() =~= v);
    }
}

/// With a first entry named "position" at index `j`, the adjustment updates
/// exactly that entry, and only if it holds an array.
proof fn lemma_adjust_first(v: Seq<(Seq<char>, EntryV)>, off: Vec3, j: int)
    requires
        0 <= j < v.len(),
        v[j].0 == position_name(),
        forall|i: int| 0 <= i < j ==> (#[trigger] v[i]).0 != position_name(),
    ensures
        s_adjust_position(v, off) == match v[j].1 {
            EntryV::Array(elems) => v.update(
                j,
                (v[j].0, EntryV::Array(s_offset_position(elems, off))),
            ),
            _ => v,
        },
    decreases v,
{
    if j == 0 {
        match v[0].1 {
            EntryV::Array(elems) => {
                assert(seq![(v[0].0, EntryV::Array(s_offset_position(elems, off)))]
                    + v.drop_first() =~= v.update(
                    0,
                    (v[0].0, EntryV::Array(s_offset_position(elems, off))),
                ));
            },
            _ => {},
        }
    } else {
        lemma_adjust_first(v.drop_first(), off, j - 1);
        match v[j].1 {
            EntryV::Array(elems) => {
                assert(v.drop_first()[j - 1] == v[j]);
                assert(seq![v[0]] + v.drop_first().update(
                    j - 1,
                    (v[j].0, EntryV::Array(s_offset_position(elems, off))),
                ) =~= v.update(j, (v[j].0, EntryV::Array(s_offset_position(elems, off)))));
            },
            _ => {
                assert(seq![v[0]] + v.drop_first() =~= v);
            },
        }
    }
}

/// Offset the first three elements of a position array.
#[verifier::loop_isolation(false)]
fn offset_position_elems(elems: Vec<ArrayElement>, off: Vec3) -> (r: Vec<ArrayElement>)
    ensures
        elems_view(r@) == s_offset_position(elems_view(elems@), off),
{
    broadcast use lemma_elems_view_index;

    let ghost orig = elems@;
    let mut v = elems;
    let mut out: Vec<ArrayElement> = Vec::new();
    while v.len() > 0
        invariant
            out@.len() + v@.len() == orig.len(),
            v@ == orig.skip(out@.len() as int),
            forall|i: int|
                0 <= i < out@.len() ==> elems_view(out@)[i] == s_offset_position(
                    elems_view(orig),
                    off,
                )[i],
        decreases v@.len(),
    {
        let ghost k = out@.len() as int;
        let e = v.remove(0);
        proof {
            assert(e == orig[k]);
        }
        let klen = out.len();
        let e2 = if klen < 3 {
            let inc = if klen == 0 {
                off.x
            } else if klen == 1 {
                off.y
            } else {
                off.z
            };
            match e {
                ArrayElement::Float(x) => ArrayElement::Float(x.wrapping_add(inc)),
                ArrayElement::Int(x) => ArrayElement::Int(x.wrapping_add(inc)),
                other => other,
            }
        } else {
            e
        };
        proof {
            assert(elem_view(e2) == s_offset_elem(elem_view(orig[k]), off.spec_component(k))
                || (k >= 3 && elem_view(e2) == elem_view(orig[k])));
            assert(v@ =~= orig.skip(k + 1));
        }
        let ghost out0 = out@;
        out.push(e2);
        proof {
            assert forall|i: int|
                0 <= i < out@.len() implies elems_view(out@)[i] == s_offset_position(
                elems_view(orig),
                off,
            )[i] by {
                assert(elems_view(out@)[i] == elem_view(out@[i]));
                if i < k {
                    assert(out@[i] == out0[i]);
                    assert(elems_view(out0)[i] == s_offset_position(elems_view(orig), off)[i]);
                } else {
                    assert(out@[i] == e2);
                    assert(elems_view(orig)[i] == elem_view(orig[i]));
                }
            }
        }
    }
    proof {
        assert(elems_view(out@) =~= s_offset_position(elems_view(orig), off));
    }
    out
}

/// Offset the first "position" array of an entry list.
#[verifier::loop_isolation(false)]
fn adjust_position(entries: Vec<(String, ConfigEntry)>, off: Vec3) -> (r: Vec<
    (String, ConfigEntry),
>)
    ensures
        entries_view(r@) == s_adjust_position(entries_view(entries@), off),
{
    broadcast use lemma_entries_view_index;

    let ghost orig = entries@;
    let mut v = entries;
    let pos = String::from_str("position");
    let n = v.len();
    let mut j: usize = 0;
    while j < n && !(v[j].0 == pos)
        invariant
            v@ == orig,
            n == v@.len(),
            pos@ == "position"@,
            j <= n,
            forall|i: int| 0 <= i < j ==> (#[trigger] entries_view(orig)[i]).0 != position_name(),
        decreases n - j,
    {
        j = j + 1;
    }
    if j == n {
        proof {
            lemma_adjust_none(entries_view(orig), off);
        }
        v
    } else {
        let (name, e) = v.remove(j);
        proof {
            assert((name, e) == orig[j as int]);
            lemma_adjust_first(entries_view(orig), off, j as int);
        }
        match e {
            ConfigEntry::Array(elems) => {
                let ghost elems0 = elems@;
                let elems2 = offset_position_elems(elems, off);
                v.insert(j, (name, ConfigEntry::Array(elems2)));
                proof {
                    assert(v@ =~= orig.update(
                        j as int,
                        (name, ConfigEntry::Array(elems2)),
                    ));
                    assert(entries_view(v@) =~= s_adjust_position(entries_view(orig), off));
                }
                v
            },
            other => {
                v.insert(j, (name, other));
                proof {
                    assert(v@ =~= orig);
                    assert(entries_view(v@) =~= s_adjust_position(entries_view(orig), off));
                }
                v
            },
        }
    }
}

} // verus!

verus! {

/// Offset one entry: classes are transformed recursively, every other kind
/// passes through unchanged.
fn offset_entry(e: ConfigEntry, off: Vec3) -> (r: ConfigEntry)
    ensures
        entry_view(r) == s_offset_entry(entry_view(e), off),
    decreases e,
{
    match e {
        ConfigEntry::Class(c) => ConfigEntry::Class(offset_class(c, off)),
        other => other,
    }
}

/// Offset a class: descend into every nested class, then offset this
/// class's own "position" array.
#[verifier::loop_isolation(false)]
fn offset_class(c: ConfigClass, off: Vec3) -> (r: ConfigClass)
    ensures
        class_view(r) == s_offset_class(class_view(c), off),
    decreases c,
{
    broadcast use lemma_entries_view_index;

    let ghost c0 = c;
    let ConfigClass { parent, is_external, is_deletion, entries } = c;
    match entries {
        Some(es) => {
            let ghost orig = es@;
            let mut v = es;
            let mut out: Vec<(String, ConfigEntry)> = Vec::new();
            while v.len() > 0
                invariant
                    out@.len() + v@.len() == orig.len(),
                    v@ == orig.skip(out@.len() as int),
                    forall|i: int|
                        0 <= i < out@.len() ==> entries_view(out@)[i] == s_offset_entries(
                            entries_view(orig),
                            off,
                        )[i],
                decreases v@.len(),
            {
                let ghost k = out@.len() as int;
                let (name, e) = v.remove(0);
                proof {
                    assert((name, e) == orig[k]);
                    assert(decreases_to!(c0 => orig));
                    assert(decreases_to!(orig => orig[k]));
                    assert(decreases_to!(c0 => e));
                    assert(v@ =~= orig.skip(k + 1));
                }
                let e2 = offset_entry(e, off);
                let ghost out0 = out@;
                out.push((name, e2));
                proof {
                    lemma_s_offset_entries_index(entries_view(orig), off);
                    assert forall|i: int|
                        0 <= i < out@.len() implies entries_view(out@)[i] == s_offset_entries(
                        entries_view(orig),
                        off,
                    )[i] by {
                        assert(entries_view(out@)[i] == (out@[i].0@, entry_view(out@[i].1)));
                        if i < k {
                            assert(out@[i] == out0[i]);
                            assert(entries_view(out0)[i] == (out0[i].0@, entry_view(out0[i].1)));
                        } else {
                            assert(out@[i] == (name, e2));
                            assert(entries_view(orig)[i] == (orig[i].0@, entry_view(orig[i].1)));
                        }
                    }
                }
            }
            let adjusted = adjust_position(out, off);
            proof {
                lemma_s_offset_entries_index(entries_view(orig), off);
                assert(entries_view(out@) =~= s_offset_entries(entries_view(orig), off));
            }
            ConfigClass { parent, is_external, is_deletion, entries: Some(adjusted) }
        },
        None => ConfigClass { parent, is_external, is_deletion, entries: None },
    }
}

/// Offset every class entry of the list recursively: visits each class,
/// adds the offset to the first three numeric elements of its "position"
/// array, and descends into every nested class; malformed nodes pass
/// through unchanged and sibling order is preserved.
#[verifier::loop_isolation(false)]
pub fn offset_classes(entries: Vec<(String, ConfigEntry)>, offset: Vec3) -> (r: Vec<
    (String, ConfigEntry),
>)
    ensures
        entries_view(r@) == s_offset_entries(entries_view(entries@), offset),
{
    broadcast use lemma_entries_view_index;

    let ghost orig = entries@;
    let mut v = entries;
    let mut out: Vec<(String, ConfigEntry)> = Vec::new();
    while v.len() > 0
        invariant
            out@.len() + v@.len() == orig.len(),
            v@ == orig.skip(out@.len() as int),
            forall|i: int|
                0 <= i < out@.len() ==> entries_view(out@)[i] == s_offset_entries(
                    entries_view(orig),
                    offset,
                )[i],
        decreases v@.len(),
    {
        let ghost k = out@.len() as int;
        let (name, e) = v.remove(0);
        proof {
            assert((name, e) == orig[k]);
            assert(v@ =~= orig.skip(k + 1));
        }
        let e2 = offset_entry(e, offset);
        let ghost out0 = out@;
        out.push((name, e2));
        proof {
            lemma_s_offset_entries_index(entries_view(orig), offset);
            assert forall|i: int|
                0 <= i < out@.len() implies entries_view(out@)[i] == s_offset_entries(
                entries_view(orig),
                offset,
            )[i] by {
                assert(entries_view(out@)[i] == (out@[i].0@, entry_view(out@[i].1)));
                if i < k {
                    assert(out@[i] == out0[i]);
                    assert(entries_view(out0)[i] == (out0[i].0@, entry_view(out0[i].1)));
                } else {
                    assert(out@[i] == (name, e2));
                    assert(entries_view(orig)[i] == (orig[i].0@, entry_view(orig[i].1)));
                }
            }
        }
    }
    proof {
        lemma_s_offset_entries_index(entries_view(orig), offset);
        assert(entries_view(out@) =~= s_offset_entries(entries_view(orig), offset));
    }
    out
}

} // verus!

verus! {

/// Adding the zero offset changes nothing, for a position array.
proof fn lemma_offset_position_identity(v: Seq<ElemV>)
    ensures
        s_offset_position(v, Vec3::spec_zero()) == v,
{
    assert(s_offset_position(v, Vec3::spec_zero()) =~= v);
}

/// Adding the zero offset changes nothing, for the position adjustment.
proof fn lemma_adjust_identity(v: Seq<(Seq<char>, EntryV)>)
    ensures
        s_adjust_position(v, Vec3::spec_zero()) == v,
    decreases v,
{
    if v.len() == 0 {
    } else if v[0].0 == position_name() {
        match v[0].1 {
            EntryV::Array(elems) => {
                lemma_offset_position_identity(elems);
                assert(seq![(v[0].0, EntryV::Array(s_offset_position(elems, Vec3::spec_zero())))]
                    + v.drop_first() =~= v);
            },
            _ => {},
        }
    } else {
        lemma_adjust_identity(v.drop_first());
        assert(seq![v[0]] + v.drop_first() =~= v);
    }
}

/// Offsetting a tree by the zero offset is the identity, entry by entry.
pub proof fn lemma_offset_entry_identity(e: EntryV)
    ensures
        s_offset_entry(e, Vec3::spec_zero()) == e,
    decreases e,
{
    match e {
        EntryV::Class(c) => {
            lemma_offset_class_identity(c);
        },
        _ => {},
    }
}

/// Offsetting a tree by the zero offset is the identity: the transform
/// returns the input tree structurally and numerically unchanged.
pub proof fn lemma_offset_entries_identity(v: Seq<(Seq<char>, EntryV)>)
    ensures
        s_offset_entries(v, Vec3::spec_zero()) == v,
    decreases v,
{
    if v.len() > 0 {
        lemma_offset_entry_identity(v[0].1);
        lemma_offset_entries_identity(v.drop_first());
        assert(seq![(v[0].0, s_offset_entry(v[0].1, Vec3::spec_zero()))] + v.drop_first() =~= v);
    }
}

/// Offsetting a class by the zero offset is the identity.
pub proof fn lemma_offset_class_identity(c: ClassV)
    ensures
        s_offset_class(c, Vec3::spec_zero()) == c,
    decreases c,
{
    match c.entries {
        Some(es) => {
            lemma_offset_entries_identity(es);
            lemma_adjust_identity(es);
        },
        None => {},
    }
}

} // verus!

verus! {

/// Wrapping addition is associative.
proof fn lemma_wadd_assoc(x: i64, a: i64, b: i64)
    ensures
        wadd(wadd(x, a), b) == wadd(x, wadd(a, b)),
{
}

/// Two elementwise offsets compose into one.
proof fn lemma_offset_elem_compose(e: ElemV, a: i64, b: i64)
    ensures
        s_offset_elem(s_offset_elem(e, a), b) == s_offset_elem(e, wadd(a, b)),
{
    match e {
        ElemV::Float(x) => lemma_wadd_assoc(x, a, b),
        ElemV::Int(x) => lemma_wadd_assoc(x, a, b),
        _ => {},
    }
}

/// Two position-array offsets compose into one.
proof fn lemma_offset_position_compose(v: Seq<ElemV>, o1: Vec3, o2: Vec3)
    ensures
        s_offset_position(s_offset_position(v, o1), o2) == s_offset_position(v, o1.spec_add(o2)),
{
    assert forall|i: int| 0 <= i < v.len() implies s_offset_position(
        s_offset_position(v, o1),
        o2,
    )[i] == s_offset_position(v, o1.spec_add(o2))[i] by {
        if i < 3 {
            lemma_offset_elem_compose(v[i], o1.spec_component(i), o2.spec_component(i));
        }
    }
    assert(s_offset_position(s_offset_position(v, o1), o2) =~= s_offset_position(
        v,
        o1.spec_add(o2),
    ));
}

/// Two position adjustments compose into one.
proof fn lemma_adjust_compose(v: Seq<(Seq<char>, EntryV)>, o1: Vec3, o2: Vec3)
    ensures
        s_adjust_position(s_adjust_position(v, o1), o2) == s_adjust_position(v, o1.spec_add(o2)),
    decreases v,
{
    if v.len() == 0 {
    } else if v[0].0 == position_name() {
        match v[0].1 {
            EntryV::Array(elems) => {
                let head1 = (v[0].0, EntryV::Array(s_offset_position(elems, o1)));
                let w = seq![head1] + v.drop_first();
                assert(w[0] == head1);
                assert(w.drop_first() =~= v.drop_first());
                lemma_offset_position_compose(elems, o1, o2);
                assert(s_adjust_position(w, o2) == seq![
                    (v[0].0, EntryV::Array(s_offset_position(s_offset_position(elems, o1), o2))),
                ] + w.drop_first());
                assert(s_adjust_position(s_adjust_position(v, o1), o2) =~= s_adjust_position(
                    v,
                    o1.spec_add(o2),
                ));
            },
            _ => {},
        }
    } else {
        lemma_adjust_compose(v.drop_first(), o1, o2);
        let w = seq![v[0]] + s_adjust_position(v.drop_first(), o1);
        assert(w[0] == v[0]);
        assert(w.drop_first() =~= s_adjust_position(v.drop_first(), o1));
        assert(s_adjust_position(w, o2) == seq![v[0]] + s_adjust_position(w.drop_first(), o2));
        assert(s_adjust_position(s_adjust_position(v, o1), o2) =~= s_adjust_position(
            v,
            o1.spec_add(o2),
        ));
    }
}

/// Offsetting every class commutes with adjusting the first position array:
/// the two touch disjoint entry kinds and preserve names.
proof fn lemma_offset_adjust_commute(v: Seq<(Seq<char>, EntryV)>, o1: Vec3, o2: Vec3)
    ensures
        s_offset_entries(s_adjust_position(v, o1), o2) == s_adjust_position(
            s_offset_entries(v, o2),
            o1,
        ),
    decreases v,
{
    if v.len() == 0 {
    } else {
        let h = v[0];
        let rest = v.drop_first();
        if h.0 == position_name() {
            match h.1 {
                EntryV::Array(elems) => {
                    let head1 = (h.0, EntryV::Array(s_offset_position(elems, o1)));
                    let w = seq![head1] + rest;
                    assert(w[0] == head1);
                    assert(w.drop_first() =~= rest);
                    // left: offset the adjusted list
                    assert(s_offset_entries(w, o2) == seq![
                        (head1.0, s_offset_entry(head1.1, o2)),
                    ] + s_offset_entries(rest, o2));
                    assert(s_offset_entry(head1.1, o2) == head1.1);
                    // right: adjust the offset list
                    let m = s_offset_entries(v, o2);
                    assert(m == seq![(h.0, s_offset_entry(h.1, o2))] + s_offset_entries(
                        rest,
                        o2,
                    ));
                    assert(m[0] == (h.0, s_offset_entry(h.1, o2)));
                    assert(s_offset_entry(h.1, o2) == h.1);
                    assert(m.drop_first() =~= s_offset_entries(rest, o2));
                    assert(s_adjust_position(m, o1) == seq![
                        (h.0, EntryV::Array(s_offset_position(elems, o1))),
                    ] + m.drop_first());
                    assert(s_offset_entries(s_adjust_position(v, o1), o2) =~= s_adjust_position(
                        s_offset_entries(v, o2),
                        o1,
                    ));
                },
                _ => {
                    // the adjustment leaves the list unchanged on both sides
                    let m = s_offset_entries(v, o2);
                    assert(m == seq![(h.0, s_offset_entry(h.1, o2))] + s_offset_entries(
                        rest,
                        o2,
                    ));
                    assert(m[0] == (h.0, s_offset_entry(h.1, o2)));
                    assert(!(s_offset_entry(h.1, o2) is Array));
                    assert(s_adjust_position(m, o1) == m);
                },
            }
        } else {
            lemma_offset_adjust_commute(rest, o1, o2);
            // left side
            let a = s_adjust_position(v, o1);
            assert(a == seq![h] + s_adjust_position(rest, o1));
            assert(a[0] == h);
            assert(a.drop_first() =~= s_adjust_position(rest, o1));
            assert(s_offset_entries(a, o2) == seq![(h.0, s_offset_entry(h.1, o2))]
                + s_offset_entries(s_adjust_position(rest, o1), o2));
            // right side
            let m = s_offset_entries(v, o2);
            assert(m == seq![(h.0, s_offset_entry(h.1, o2))] + s_offset_entries(rest, o2));
            assert(m[0] == (h.0, s_offset_entry(h.1, o2)));
            assert(m.drop_first() =~= s_offset_entries(rest, o2));
            assert(s_adjust_position(m, o1) == seq![(h.0, s_offset_entry(h.1, o2))]
                + s_adjust_position(s_offset_entries(rest, o2), o1));
            assert(s_offset_entries(a, o2) =~= s_adjust_position(m, o1));
        }
    }
}

/// Offsetting an entry twice equals offsetting once by the wrapping sum.
pub proof fn lemma_offset_entry_additive(e: EntryV, o1: Vec3, o2: Vec3)
    ensures
        s_offset_entry(s_offset_entry(e, o1), o2) == s_offset_entry(e, o1.spec_add(o2)),
    decreases e,
{
    match e {
        EntryV::Class(c) => {
            lemma_offset_class_additive(c, o1, o2);
        },
        _ => {},
    }
}

/// Offsetting a tree twice equals offsetting once by the wrapping
/// componentwise sum of the two offsets, for any tree.
pub proof fn lemma_offset_entries_additive(v: Seq<(Seq<char>, EntryV)>, o1: Vec3, o2: Vec3)
    ensures
        s_offset_entries(s_offset_entries(v, o1), o2) == s_offset_entries(v, o1.spec_add(o2)),
    decreases v,
{
    if v.len() > 0 {
        lemma_offset_entry_additive(v[0].1, o1, o2);
        lemma_offset_entries_additive(v.drop_first(), o1, o2);
        let w = seq![(v[0].0, s_offset_entry(v[0].1, o1))] + s_offset_entries(v.drop_first(), o1);
        assert(w[0] == (v[0].0, s_offset_entry(v[0].1, o1)));
        assert(w.drop_first() =~= s_offset_entries(v.drop_first(), o1));
        assert(s_offset_entries(w, o2) == seq![
            (v[0].0, s_offset_entry(s_offset_entry(v[0].1, o1), o2)),
        ] + s_offset_entries(w.drop_first(), o2));
        assert(s_offset_entries(s_offset_entries(v, o1), o2) =~= s_offset_entries(
            v,
            o1.spec_add(o2),
        ));
    }
}

/// Offsetting a class twice equals offsetting once by the wrapping sum.
pub proof fn lemma_offset_class_additive(c: ClassV, o1: Vec3, o2: Vec3)
    ensures
        s_offset_class(s_offset_class(c, o1), o2) == s_offset_class(c, o1.spec_add(o2)),
    decreases c,
{
    match c.entries {
        Some(es) => {
            let m1 = s_offset_entries(es, o1);
            lemma_offset_adjust_commute(m1, o1, o2);
            lemma_offset_entries_additive(es, o1, o2);
            lemma_adjust_compose(s_offset_entries(es, o1.spec_add(o2)), o1, o2);
            assert(s_adjust_position(s_adjust_position(s_offset_entries(es, o1.spec_add(o2)), o1), o2)
                == s_adjust_position(s_offset_entries(es, o1.spec_add(o2)), o1.spec_add(o2)));
        },
        None => {},
    }
}

} // verus!

verus! {

/// Coerce one array element to a numeric value: both numeric kinds give
/// their fixed-point thousandths value, on one shared scale; strings and
/// nested arrays give zero.
pub open spec fn s_coerce_elem(e: ElemV) -> i64 {
    match e {
        ElemV::Float(x) => x,
        ElemV::Int(x) => x,
        _ => 0,
    }
}

/// The vector read from the first three elements of an array, with missing
/// elements defaulting to zero.
pub open spec fn s_vector_of(elems: Seq<ElemV>) -> Vec3 {
    Vec3 {
        x: if elems.len() > 0 {
            s_coerce_elem(elems[0])
        } else {
            0
        },
        y: if elems.len() > 1 {
            s_coerce_elem(elems[1])
        } else {
            0
        },
        z: if elems.len() > 2 {
            s_coerce_elem(elems[2])
        } else {
            0
        },
    }
}

/// The first array-valued entry of the given name, if any.
pub open spec fn s_find_array(v: Seq<(Seq<char>, EntryV)>, name: Seq<char>) -> Option<Seq<ElemV>>
    decreases v,
{
    if v.len() == 0 {
        None
    } else if v[0].0 == name && v[0].1 is Array {
        Some(v[0].1->Array_0)
    } else {
        s_find_array(v.drop_first(), name)
    }
}

/// Find a top-level array field and coerce its first three elements to a
/// vector, defaulting missing elements to zero.  Fails exactly when no
/// array field of that name exists.
#[verifier::loop_isolation(false)]
pub fn extract_vector(entries: &Vec<(String, ConfigEntry)>, field_name: &String) -> (r: Result<
    Vec3,
    crate::LaatError,
>)
    ensures
        r is Ok <==> s_find_array(entries_view(entries@), field_name@) is Some,
        r matches Ok(v3) ==> v3 == s_vector_of(s_find_array(entries_view(entries@), field_name@)->0),
        r matches Err(e) ==> e is FieldNotFound,
{
    broadcast use lemma_entries_view_index;

    let ghost ev = entries_view(entries@);
    proof {
        assert(ev.skip(0) =~= ev);
    }
    let n = entries.len();
    let mut i: usize = 0;
    while i < n
        invariant
            i <= n,
            n == entries@.len(),
            s_find_array(ev, field_name@) == s_find_array(ev.skip(i as int), field_name@),
        decreases n - i,
    {
        proof {
            assert(ev.skip(i as int)[0] == ev[i as int]);
            assert(ev.skip(i as int).drop_first() =~= ev.skip(i + 1));
        }
        if entries[i].0 == *field_name {
            match &entries[i].1 {
                ConfigEntry::Array(elems) => {
                    proof {
                        assert(ev[i as int].1 == entry_view(entries@[i as int].1));
                        assert(ev[i as int].1->Array_0 == elems_view(elems@));
                        assert(ev.skip(i as int)[0].0 == field_name@);
                        assert(s_find_array(ev.skip(i as int), field_name@) == Some(
                            elems_view(elems@),
                        ));
                        lemma_elems_view_index(elems@);
                    }
                    let x = if elems.len() > 0 {
                        match &elems[0] {
                            ArrayElement::Float(v) => *v,
                            ArrayElement::Int(v) => *v,
                            _ => 0,
                        }
                    } else {
                        0
                    };
                    let y = if elems.len() > 1 {
                        match &elems[1] {
                            ArrayElement::Float(v) => *v,
                            ArrayElement::Int(v) => *v,
                            _ => 0,
                        }
                    } else {
                        0
                    };
                    let z = if elems.len() > 2 {
                        match &elems[2] {
                            ArrayElement::Float(v) => *v,
                            ArrayElement::Int(v) => *v,
                            _ => 0,
                        }
                    } else {
                        0
                    };
                    return Ok(Vec3 { x, y, z });
                },
                _ => {},
            }
        }
        proof {
            assert(ev[i as int].1 == entry_view(entries@[i as int].1));
            assert(s_find_array(ev.skip(i as int), field_name@) == s_find_array(
                ev.skip(i + 1),
                field_name@,
            ));
        }
        i = i + 1;
    }
    proof {
        assert(ev.skip(n as int) =~= Seq::<(Seq<char>, EntryV)>::empty());
    }
    Err(crate::LaatError::FieldNotFound)
}

} // verus!

verus! {

/// The view of a path, component by component.
pub open spec fn path_view(p: Seq<String>) -> Seq<Seq<char>> {
    Seq::new(p.len(), |i: int| p[i]@)
}

/// A fresh class wrapping the merged entries, carrying the destination
/// class's own parent attribute.
pub open spec fn s_fresh_class(parent: Seq<char>, newe: Seq<(Seq<char>, EntryV)>) -> ClassV {
    ClassV { parent, is_external: false, is_deletion: false, entries: Some(newe) }
}

/// Replace the first entry of the given name, or append a new one.
pub open spec fn s_replace_or_append(
    es: Seq<(Seq<char>, EntryV)>,
    name: Seq<char>,
    e: EntryV,
) -> Seq<(Seq<char>, EntryV)>
    decreases es,
{
    if es.len() == 0 {
        seq![(name, e)]
    } else if es[0].0 == name {
        es.update(0, (name, e))
    } else {
        seq![es[0]] + s_replace_or_append(es.drop_first(), name, e)
    }
}

/// Merge new entries into the class reached by the path: the final path
/// component is replaced or inserted as a fresh class wrapping the new
/// entries; missing intermediate classes make the merge a no-op.
pub open spec fn s_merge_class(
    c: ClassV,
    path: Seq<Seq<char>>,
    newe: Seq<(Seq<char>, EntryV)>,
) -> ClassV
    decreases path.len(), 0int,
{
    if path.len() == 0 {
        c
    } else {
        match c.entries {
            None => c,
            Some(es) => {
                if path.len() == 1 {
                    ClassV {
                        parent: c.parent,
                        is_external: c.is_external,
                        is_deletion: c.is_deletion,
                        entries: Some(
                            s_replace_or_append(
                                es,
                                path[0],
                                EntryV::Class(s_fresh_class(c.parent, newe)),
                            ),
                        ),
                    }
                } else {
                    ClassV {
                        parent: c.parent,
                        is_external: c.is_external,
                        is_deletion: c.is_deletion,
                        entries: Some(s_descend(es, path[0], path.drop_first(), newe)),
                    }
                }
            },
        }
    }
}

/// Descend into the first class entry of the given name; if none exists
/// the list is unchanged.
pub open spec fn s_descend(
    es: Seq<(Seq<char>, EntryV)>,
    name: Seq<char>,
    rest: Seq<Seq<char>>,
    newe: Seq<(Seq<char>, EntryV)>,
) -> Seq<(Seq<char>, EntryV)>
    decreases rest.len(), es.len(),
{
    if es.len() == 0 {
        es
    } else if es[0].0 == name && es[0].1 is Class {
        es.update(0, (es[0].0, EntryV::Class(s_merge_class(es[0].1->Class_0, rest, newe))))
    } else {
        seq![es[0]] + s_descend(es.drop_first(), name, rest, newe)
    }
}

/// With no entry of the name, replace-or-append appends at the end.
proof fn lemma_replace_none(es: Seq<(Seq<char>, EntryV)>, name: Seq<char>, e: EntryV)
    requires
        forall|i: int| 0 <= i < es.len() ==> (#[trigger] es[i]).0 != name,
    ensures
        s_replace_or_append(es, name, e) == es.push((name, e)),
    decreases es,
{
    if es.len() == 0 {
        assert(seq![(name, e)] =~= es.push((name, e)));
    } else {
        lemma_replace_none(es.drop_first(), name, e);
        assert(seq![es[0]] + es.drop_first().push((name, e)) =~= es.push((name, e)));
    }
}

/// With a first entry of the name at `j`, replace-or-append updates it.
proof fn lemma_replace_first(es: Seq<(Seq<char>, EntryV)>, name: Seq<char>, e: EntryV, j: int)
    requires
        0 <= j < es.len(),
        es[j].0 == name,
        forall|i: int| 0 <= i < j ==> (#[trigger] es[i]).0 != name,
    ensures
        s_replace_or_append(es, name, e) == es.update(j, (name, e)),
    decreases es,
{
    if j == 0 {
    } else {
        lemma_replace_first(es.drop_first(), name, e, j - 1);
        assert(es.drop_first()[j - 1] == es[j]);
        assert(seq![es[0]] + es.drop_first().update(j - 1, (name, e)) =~= es.update(
            j,
            (name, e),
        ));
    }
}

/// With no class entry of the name, the descent changes nothing.
proof fn lemma_descend_none(
    es: Seq<(Seq<char>, EntryV)>,
    name: Seq<char>,
    rest: Seq<Seq<char>>,
    newe: Seq<(Seq<char>, EntryV)>,
)
    requires
        forall|i: int|
            0 <= i < es.len() ==> !((#[trigger] es[i]).0 == name && es[i].1 is Class),
    ensures
        s_descend(es, name, rest, newe) == es,
    decreases es,
{
    if es.len() > 0 {
        lemma_descend_none(es.drop_first(), name, rest, newe);
        assert(seq![es[0]] + es.drop_first() =~= es);
    }
}

/// With a first class entry of the name at `j`, the descent updates it.
proof fn lemma_descend_first(
    es: Seq<(Seq<char>, EntryV)>,
    name: Seq<char>,
    rest: Seq<Seq<char>>,
    newe: Seq<(Seq<char>, EntryV)>,
    j: int,
)
    requires
        0 <= j < es.len(),
        es[j].0 == name,
        es[j].1 is Class,
        forall|i: int|
            0 <= i < j ==> !((#[trigger] es[i]).0 == name && es[i].1 is Class),
    ensures
        s_descend(es, name, rest, newe) == es.update(
            j,
            (es[j].0, EntryV::Class(s_merge_class(es[j].1->Class_0, rest, newe))),
        ),
    decreases es,
{
    if j == 0 {
    } else {
        lemma_descend_first(es.drop_first(), name, rest, newe, j - 1);
        assert(es.drop_first()[j - 1] == es[j]);
        let x = (es[j].0, EntryV::Class(s_merge_class(es[j].1->Class_0, rest, newe)));
        assert(seq![es[0]] + es.drop_first().update(j - 1, x) =~= es.update(j, x));
    }
}

} // verus!

verus! {

/// Merge new entries into the class reached by the remaining path.
#[verifier::loop_isolation(false)]
fn merge_class_at(
    c: ConfigClass,
    path: &Vec<String>,
    idx: usize,
    newe: Vec<(String, ConfigEntry)>,
) -> (r: ConfigClass)
    requires
        idx < path@.len(),
    ensures
        class_view(r) == s_merge_class(
            class_view(c),
            path_view(path@).skip(idx as int),
            entries_view(newe@),
        ),
    decreases path@.len() - idx,
{
    broadcast use lemma_entries_view_index;

    let ghost p = path_view(path@).skip(idx as int);
    let ConfigClass { parent, is_external, is_deletion, entries } = c;
    match entries {
        None => ConfigClass { parent, is_external, is_deletion, entries: None },
        Some(mut es) => {
            let ghost orig = es@;
            let ghost ev = entries_view(orig);
            let last = path.len() - idx == 1;
            let n = es.len();
            let mut j: usize = 0;
            if last {
                while j < n && !(es[j].0 == path[idx])
                    invariant
                        es@ == orig,
                        n == orig.len(),
                        j <= n,
                        forall|i: int| 0 <= i < j ==> (#[trigger] ev[i]).0 != p[0],
                    decreases n - j,
                {
                    j = j + 1;
                }
                let fresh = ConfigClass {
                    parent: parent.clone(),
                    is_external: false,
                    is_deletion: false,
                    entries: Some(newe),
                };
                let name = path[idx].clone();
                proof {
                    assert(p[0] == path@[idx as int]@);
                    assert(entry_view(ConfigEntry::Class(fresh)) == EntryV::Class(
                        s_fresh_class(parent@, entries_view(fresh.entries->0@)),
                    ));
                }
                if j == n {
                    es.push((name, ConfigEntry::Class(fresh)));
                    proof {
                        lemma_replace_none(ev, p[0], EntryV::Class(s_fresh_class(parent@, entries_view(newe@))));
                        assert(entries_view(es@) =~= s_replace_or_append(
                            ev,
                            p[0],
                            EntryV::Class(s_fresh_class(parent@, entries_view(newe@))),
                        ));
                    }
                } else {
                    let _old = es.remove(j);
                    es.insert(j, (name, ConfigEntry::Class(fresh)));
                    proof {
                        assert(ev[j as int].0 == p[0]);
                        lemma_replace_first(ev, p[0], EntryV::Class(s_fresh_class(parent@, entries_view(newe@))), j as int);
                        assert(es@ =~= orig.update(
                            j as int,
                            (path@[idx as int], ConfigEntry::Class(fresh)),
                        ));
                        assert(entries_view(es@) =~= s_replace_or_append(
                            ev,
                            p[0],
                            EntryV::Class(s_fresh_class(parent@, entries_view(newe@))),
                        ));
                    }
                }
                proof {
                    assert(p.len() == 1);
                }
                ConfigClass { parent, is_external, is_deletion, entries: Some(es) }
            } else {
                while j < n && !(es[j].0 == path[idx] && es[j].1.is_class())
                    invariant
                        es@ == orig,
                        n == orig.len(),
                        j <= n,
                        forall|i: int|
                            0 <= i < j ==> !((#[trigger] ev[i]).0 == p[0] && ev[i].1 is Class),
                    decreases n - j,
                {
                    j = j + 1;
                }
                proof {
                    assert(p.drop_first() =~= path_view(path@).skip(idx + 1));
                }
                if j == n {
                    proof {
                        lemma_descend_none(ev, p[0], p.drop_first(), entries_view(newe@));
                    }
                    ConfigClass { parent, is_external, is_deletion, entries: Some(es) }
                } else {
                    let (name, e) = es.remove(j);
                    match e {
                        ConfigEntry::Class(inner) => {
                            proof {
                                assert((name, ConfigEntry::Class(inner)) == orig[j as int]);
                                assert(ev[j as int].1 == entry_view(orig[j as int].1));
                                assert(ev[j as int].1->Class_0 == class_view(inner));
                            }
                            let merged = merge_class_at(inner, path, idx + 1, newe);
                            es.insert(j, (name, ConfigEntry::Class(merged)));
                            proof {
                                lemma_descend_first(ev, p[0], p.drop_first(), entries_view(newe@), j as int);
                                assert(es@ =~= orig.update(
                                    j as int,
                                    (orig[j as int].0, ConfigEntry::Class(merged)),
                                ));
                                assert(entries_view(es@) =~= s_descend(
                                    ev,
                                    p[0],
                                    p.drop_first(),
                                    entries_view(newe@),
                                ));
                            }
                            ConfigClass { parent, is_external, is_deletion, entries: Some(es) }
                        },
                        _ => {
                            proof {
                                assert(ev[j as int].1 is Class);
                                assert(false);
                            }
                            ConfigClass { parent, is_external, is_deletion, entries: Some(es) }
                        },
                    }
                }
            }
        },
    }
}

impl ConfigEntry {
    /// Whether this entry is a class.
    pub fn is_class(&self) -> (r: bool)
        ensures
            r == (entry_view(*self) is Class),
    {
        match self {
            ConfigEntry::Class(_) => true,
            _ => false,
        }
    }
}

impl Config {
    /// Replace or insert the class field reached by `path` with a fresh
    /// class wrapping `new_entries`, preserving the destination class's own
    /// parent attribute.  An empty path, or a path whose intermediate
    /// classes are missing, leaves the tree unchanged.
    pub fn merge_subtree(self, path: &Vec<String>, new_entries: Vec<(String, ConfigEntry)>) -> (r:
        Config)
        ensures
            class_view(r.root) == s_merge_class(
                class_view(self.root),
                path_view(path@),
                entries_view(new_entries@),
            ),
    {
        if path.len() == 0 {
            proof {
                assert(path_view(path@).len() == 0);
            }
            self
        } else {
            let root = merge_class_at(self.root, path, 0, new_entries);
            proof {
                assert(path_view(path@).skip(0) =~= path_view(path@));
            }
            Config { root }
        }
    }
}

} // verus!

verus! {

/// Decimal digits of a natural number, most significant first.
pub open spec fn s_dec_digits(n: nat) -> Seq<char>
    decreases n,
{
    if n < 10 {
        seq![(('0' as u8) + n) as char]
    } else {
        s_dec_digits(n / 10).push((('0' as u8) + (n % 10)) as char)
    }
}

/// The magnitude of a signed value, as a natural number.
pub open spec fn s_magnitude(v: i64) -> nat {
    if v < 0 {
        (-(v as int)) as nat
    } else {
        v as nat
    }
}

/// Text of an integer-written scalar in fixed-point thousandths: a whole
/// value prints without a fraction; a value offset off the whole grid
/// prints as a decimal.
pub open spec fn s_int_scalar_text(v: i64) -> Seq<char> {
    if s_magnitude(v) % 1000 == 0 {
        (if v < 0 {
            seq!['-']
        } else {
            Seq::<char>::empty()
        }) + s_dec_digits(s_magnitude(v) / 1000)
    } else {
        s_float_text(v)
    }
}

/// Pad a digit string on the left with zeros to three places.
pub open spec fn s_pad3(s: Seq<char>) -> Seq<char> {
    if s.len() >= 3 {
        s
    } else if s.len() == 2 {
        seq!['0'] + s
    } else {
        seq!['0', '0'] + s
    }
}

/// Text of a fixed-point thousandths value: the integer part, a point and
/// exactly three fractional digits.
pub open spec fn s_float_text(v: i64) -> Seq<char> {
    let mag = if v < 0 {
        (-(v as int)) as nat
    } else {
        v as nat
    };
    let sign: Seq<char> = if v < 0 {
        seq!['-']
    } else {
        Seq::empty()
    };
    sign + s_dec_digits(mag / 1000) + seq!['.'] + s_pad3(s_dec_digits(mag % 1000))
}

/// One escaped character of a quoted string: a quote doubles, a carriage
/// return and a line feed become two-character escapes.
pub open spec fn s_escape_char(c: char) -> Seq<char> {
    if c == '"' {
        seq!['"', '"']
    } else if c == '\r' {
        seq!['\\', 'r']
    } else if c == '\n' {
        seq!['\\', 'n']
    } else {
        seq![c]
    }
}

/// A string value with its characters escaped.
pub open spec fn s_escape(s: Seq<char>) -> Seq<char>
    decreases s,
{
    if s.len() == 0 {
        s
    } else {
        s_escape_char(s[0]) + s_escape(s.drop_first())
    }
}

/// Text of one array element.
pub open spec fn s_elem_text(e: ElemV) -> Seq<char>
    decreases e,
{
    match e {
        ElemV::Str(s) => seq!['"'] + s_escape(s) + seq!['"'],
        ElemV::Float(v) => s_float_text(v),
        ElemV::Int(v) => s_int_scalar_text(v),
        ElemV::Array(v) => seq!['{'] + s_elems_text(v) + seq!['}'],
    }
}

/// Text of an element list, separated by ", ".
pub open spec fn s_elems_text(v: Seq<ElemV>) -> Seq<char>
    decreases v,
{
    if v.len() == 0 {
        Seq::empty()
    } else if v.len() == 1 {
        s_elem_text(v[0])
    } else {
        s_elem_text(v[0]) + seq![',', ' '] + s_elems_text(v.drop_first())
    }
}

/// Text of one named entry at the given indentation.
pub open spec fn s_entry_text(name: Seq<char>, e: EntryV, ind: Seq<char>) -> Seq<char>
    decreases e,
{
    match e {
        EntryV::Str(s) => ind + name + " = \""@ + s_escape(s) + "\";\n"@,
        EntryV::Float(v) => ind + name + " = "@ + s_float_text(v) + ";\n"@,
        EntryV::Int(v) => ind + name + " = "@ + s_int_scalar_text(v) + ";\n"@,
        EntryV::Array(v) => ind + name + "[] = {"@ + s_elems_text(v) + "};\n"@,
        EntryV::Class(c) => {
            if c.is_deletion {
                ind + "delete "@ + name + ";\n"@
            } else if c.is_external {
                ind + "class "@ + name + ";\n"@
            } else {
                let parent_part: Seq<char> = if c.parent.len() == 0 {
                    Seq::empty()
                } else {
                    ": "@ + c.parent
                };
                match c.entries {
                    Some(es) => ind + "class "@ + name + parent_part + " {\n"@ + s_entries_text(
                        es,
                        ind + "    "@,
                    ) + ind + "};\n"@,
                    None => ind + "class "@ + name + parent_part + " {};\n"@,
                }
            }
        },
    }
}

/// Text of an entry list, line by line.
pub open spec fn s_entries_text(v: Seq<(Seq<char>, EntryV)>, ind: Seq<char>) -> Seq<char>
    decreases v,
{
    if v.len() == 0 {
        Seq::empty()
    } else {
        s_entry_text(v[0].0, v[0].1, ind) + s_entries_text(v.drop_first(), ind)
    }
}

/// The stable text of a whole config document: the root class body at
/// indentation zero.  Serialization is a function of the tree alone, so a
/// given tree always re-serializes to the same text.
pub open spec fn s_config_text(c: ClassV) -> Seq<char> {
    match c.entries {
        Some(es) => s_entries_text(es, Seq::empty()),
        None => Seq::empty(),
    }
}

} // verus!

verus! {

/// Digit-string lengths for small magnitudes.
proof fn lemma_dec_digits_len(n: nat)
    ensures
        n < 10 ==> s_dec_digits(n).len() == 1,
        10 <= n < 100 ==> s_dec_digits(n).len() == 2,
        100 <= n < 1000 ==> s_dec_digits(n).len() == 3,
    decreases n,
{
    if n >= 10 {
        lemma_dec_digits_len(n / 10);
    }
}

/// Escaping distributes over concatenation.
proof fn lemma_escape_concat(a: Seq<char>, b: Seq<char>)
    ensures
        s_escape(a + b) == s_escape(a) + s_escape(b),
    decreases a,
{
    if a.len() == 0 {
        assert(a + b =~= b);
        assert(s_escape(a) + s_escape(b) =~= s_escape(b));
    } else {
        lemma_escape_concat(a.drop_first(), b);
        assert((a + b).drop_first() =~= a.drop_first() + b);
        assert(s_escape_char((a + b)[0]) + (s_escape(a.drop_first()) + s_escape(b))
            =~= (s_escape_char(a[0]) + s_escape(a.drop_first())) + s_escape(b));
    }
}

/// Appending one element extends the joined element text by a separator
/// and the element's own text.
proof fn lemma_elems_text_snoc(v: Seq<ElemV>, e: ElemV)
    requires
        v.len() >= 1,
    ensures
        s_elems_text(v.push(e)) == s_elems_text(v) + seq![',', ' '] + s_elem_text(e),
    decreases v,
{
    if v.len() == 1 {
        assert(v.push(e)[0] == v[0]);
        assert(v.push(e).drop_first() =~= seq![e]);
        assert(s_elems_text(seq![e]) == s_elem_text(e));
    } else {
        lemma_elems_text_snoc(v.drop_first(), e);
        assert(v.push(e).drop_first() =~= v.drop_first().push(e));
        assert(v.push(e)[0] == v[0]);
        assert(s_elems_text(v.push(e)) == s_elem_text(v[0]) + seq![',', ' '] + (s_elems_text(
            v.drop_first(),
        ) + seq![',', ' '] + s_elem_text(e)));
        assert(s_elem_text(v[0]) + seq![',', ' '] + (s_elems_text(v.drop_first()) + seq![',', ' ']
            + s_elem_text(e)) =~= (s_elem_text(v[0]) + seq![',', ' '] + s_elems_text(
            v.drop_first(),
        )) + seq![',', ' '] + s_elem_text(e));
    }
}

/// Appending one entry extends the entry text by that entry's line.
proof fn lemma_entries_text_snoc(v: Seq<(Seq<char>, EntryV)>, x: (Seq<char>, EntryV), ind: Seq<char>)
    ensures
        s_entries_text(v.push(x), ind) == s_entries_text(v, ind) + s_entry_text(x.0, x.1, ind),
    decreases v,
{
    if v.len() == 0 {
        assert(v.push(x)[0] == x);
        assert(v.push(x).drop_first() =~= Seq::<(Seq<char>, EntryV)>::empty());
        assert(s_entries_text(v.push(x), ind) == s_entry_text(x.0, x.1, ind) + s_entries_text(
            Seq::<(Seq<char>, EntryV)>::empty(),
            ind,
        ));
        assert(s_entry_text(x.0, x.1, ind) + s_entries_text(
            Seq::<(Seq<char>, EntryV)>::empty(),
            ind,
        ) =~= s_entry_text(x.0, x.1, ind));
        assert(s_entries_text(v, ind) + s_entry_text(x.0, x.1, ind) =~= s_entry_text(
            x.0,
            x.1,
            ind,
        ));
    } else {
        lemma_entries_text_snoc(v.drop_first(), x, ind);
        assert(v.push(x).drop_first() =~= v.drop_first().push(x));
        assert(v.push(x)[0] == v[0]);
        assert(s_entry_text(v[0].0, v[0].1, ind) + (s_entries_text(v.drop_first(), ind)
            + s_entry_text(x.0, x.1, ind)) =~= (s_entry_text(v[0].0, v[0].1, ind)
            + s_entries_text(v.drop_first(), ind)) + s_entry_text(x.0, x.1, ind));
    }
}

/// Append the decimal digits of `n`.
fn dec_digits_append(n: u64, out: &mut String)
    ensures
        final(out)@ == old(out)@ + s_dec_digits(n as nat),
    decreases n,
{
    if n < 10 {
        let c = ('0' as u8 + (n as u8)) as char;
        push_char(out, c);
        proof {
            assert(old(out)@.push(c) =~= old(out)@ + s_dec_digits(n as nat));
        }
    } else {
        dec_digits_append(n / 10, out);
        let c = ('0' as u8 + ((n % 10) as u8)) as char;
        push_char(out, c);
        proof {
            assert((old(out)@ + s_dec_digits((n / 10) as nat)).push(c) =~= old(out)@
                + s_dec_digits(n as nat));
        }
    }
}

/// The unsigned magnitude of a signed value.
fn magnitude(v: i64) -> (r: u64)
    ensures
        r as int == if v < 0 {
            -(v as int)
        } else {
            v as int
        },
{
    if v < 0 {
        (-(v as i128)) as u64
    } else {
        v as u64
    }
}

/// Append the text of an integer-written scalar in thousandths.
fn int_scalar_append(v: i64, out: &mut String)
    ensures
        final(out)@ == old(out)@ + s_int_scalar_text(v),
{
    let mag = magnitude(v);
    if mag % 1000 == 0 {
        if v < 0 {
            push_char(out, '-');
        }
        dec_digits_append(mag / 1000, out);
        proof {
            if v < 0 {
                assert(old(out)@.push('-') + s_dec_digits((mag / 1000) as nat) =~= old(out)@
                    + s_int_scalar_text(v));
            } else {
                assert(old(out)@ + s_dec_digits((mag / 1000) as nat) =~= old(out)@
                    + s_int_scalar_text(v));
            }
        }
    } else {
        float_append(v, out);
    }
}

/// Append the text of a fixed-point thousandths value.
fn float_append(v: i64, out: &mut String)
    ensures
        final(out)@ == old(out)@ + s_float_text(v),
{
    if v < 0 {
        push_char(out, '-');
    }
    let mag = magnitude(v);
    let q = mag / 1000;
    let r = mag % 1000;
    dec_digits_append(q, out);
    push_char(out, '.');
    proof {
        lemma_dec_digits_len((r as nat));
    }
    if r < 10 {
        out.append("00");
    } else if r < 100 {
        out.append("0");
    }
    dec_digits_append(r, out);
    proof {
        assert("00"@ =~= seq!['0', '0']) by {
            reveal_strlit("00");
        }
        assert("0"@ =~= seq!['0']) by {
            reveal_strlit("0");
        }
        assert(final(out)@ =~= old(out)@ + s_float_text(v));
    }
}

/// Append a string value with its characters escaped.
#[verifier::loop_isolation(false)]
fn escape_append(s: &str, out: &mut String)
    ensures
        final(out)@ == old(out)@ + s_escape(s@),
{
    let n = s.unicode_len();
    let mut i: usize = 0;
    while i < n
        invariant
            i <= n,
            n == s@.len(),
            out@ == old(out)@ + s_escape(s@.take(i as int)),
        decreases n - i,
    {
        let c = s.get_char(i);
        if c == '"' {
            push_char(out, '"');
            push_char(out, '"');
        } else if c == '\r' {
            push_char(out, '\\');
            push_char(out, 'r');
        } else if c == '\n' {
            push_char(out, '\\');
            push_char(out, 'n');
        } else {
            push_char(out, c);
        }
        proof {
            lemma_escape_concat(s@.take(i as int), seq![s@[i as int]]);
            assert(s@.take(i + 1) =~= s@.take(i as int) + seq![s@[i as int]]);
            assert(seq![s@[i as int]].drop_first() =~= Seq::<char>::empty());
            assert(s_escape(Seq::<char>::empty()) =~= Seq::<char>::empty());
            assert(seq![s@[i as int]][0] == s@[i as int]);
            assert(s_escape(seq![s@[i as int]]) == s_escape_char(s@[i as int]) + s_escape(
                seq![s@[i as int]].drop_first(),
            ));
            assert(s_escape(seq![s@[i as int]]) =~= s_escape_char(s@[i as int]));
            assert(s_escape(s@.take(i + 1)) =~= s_escape(s@.take(i as int)) + s_escape_char(
                s@[i as int],
            ));
            assert(out@ =~= old(out)@ + s_escape(s@.take(i + 1)));
        }
        i = i + 1;
    }
    proof {
        assert(s@.take(n as int) =~= s@);
    }
}

} // verus!

verus! {

/// Append the text of one array element.
fn elem_append(e: &ArrayElement, out: &mut String)
    ensures
        final(out)@ == old(out)@ + s_elem_text(elem_view(*e)),
    decreases e,
{
    match e {
        ArrayElement::Str(s) => {
            push_char(out, '"');
            escape_append(s.as_str(), out);
            push_char(out, '"');
            proof {
                assert(final(out)@ =~= old(out)@ + s_elem_text(elem_view(*e)));
            }
        },
        ArrayElement::Float(v) => {
            float_append(*v, out);
        },
        ArrayElement::Int(v) => {
            int_scalar_append(*v, out);
        },
        ArrayElement::Array(elems) => {
            push_char(out, '{');
            elems_append(elems, out);
            push_char(out, '}');
            proof {
                assert(final(out)@ =~= old(out)@ + s_elem_text(elem_view(*e)));
            }
        },
    }
}

/// Append the text of an element list, separated by ", ".
#[verifier::loop_isolation(false)]
fn elems_append(v: &Vec<ArrayElement>, out: &mut String)
    ensures
        final(out)@ == old(out)@ + s_elems_text(elems_view(v@)),
    decreases v,
{
    broadcast use lemma_elems_view_index;

    let n = v.len();
    let mut i: usize = 0;
    while i < n
        invariant
            i <= n,
            n == v@.len(),
            out@ == old(out)@ + s_elems_text(elems_view(v@.take(i as int))),
        decreases n - i,
    {
        if i > 0 {
            out.append(", ");
        }
        elem_append(&v[i], out);
        proof {
            let pre = elems_view(v@.take(i as int));
            let cur = elems_view(v@.take(i + 1));
            assert(v@.take(i + 1) =~= v@.take(i as int).push(v@[i as int]));
            assert(cur =~= pre.push(elem_view(v@[i as int])));
            if i == 0 {
                assert(pre =~= Seq::<ElemV>::empty());
                assert(cur =~= seq![elem_view(v@[i as int])]);
                assert(s_elems_text(cur) == s_elem_text(elem_view(v@[i as int])));
                assert(out@ =~= old(out)@ + s_elems_text(cur));
            } else {
                lemma_elems_text_snoc(pre, elem_view(v@[i as int]));
                assert(", "@ =~= seq![',', ' ']) by {
                    reveal_strlit(", ");
                }
                assert(out@ =~= old(out)@ + s_elems_text(cur));
            }
        }
        i = i + 1;
    }
    proof {
        assert(v@.take(n as int) =~= v@);
    }
}

/// Append the line (or block) of one named entry at the given indentation.
fn entry_append(name: &String, e: &ConfigEntry, ind: &String, out: &mut String)
    ensures
        final(out)@ == old(out)@ + s_entry_text(name@, entry_view(*e), ind@),
    decreases e,
{
    match e {
        ConfigEntry::Str(s) => {
            out.append(ind.as_str());
            out.append(name.as_str());
            out.append(" = \"");
            escape_append(s.as_str(), out);
            out.append("\";\n");
            proof {
                assert(final(out)@ =~= old(out)@ + s_entry_text(name@, entry_view(*e), ind@));
            }
        },
        ConfigEntry::Float(v) => {
            out.append(ind.as_str());
            out.append(name.as_str());
            out.append(" = ");
            float_append(*v, out);
            out.append(";\n");
            proof {
                assert(final(out)@ =~= old(out)@ + s_entry_text(name@, entry_view(*e), ind@));
            }
        },
        ConfigEntry::Int(v) => {
            out.append(ind.as_str());
            out.append(name.as_str());
            out.append(" = ");
            int_scalar_append(*v, out);
            out.append(";\n");
            proof {
                assert(final(out)@ =~= old(out)@ + s_entry_text(name@, entry_view(*e), ind@));
            }
        },
        ConfigEntry::Array(elems) => {
            out.append(ind.as_str());
            out.append(name.as_str());
            out.append("[] = {");
            elems_append(elems, out);
            out.append("};\n");
            proof {
                assert(final(out)@ =~= old(out)@ + s_entry_text(name@, entry_view(*e), ind@));
            }
        },
        ConfigEntry::Class(c) => {
            if c.is_deletion {
                out.append(ind.as_str());
                out.append("delete ");
                out.append(name.as_str());
                out.append(";\n");
                proof {
                    assert(final(out)@ =~= old(out)@ + s_entry_text(name@, entry_view(*e), ind@));
                }
            } else if c.is_external {
                out.append(ind.as_str());
                out.append("class ");
                out.append(name.as_str());
                out.append(";\n");
                proof {
                    assert(final(out)@ =~= old(out)@ + s_entry_text(name@, entry_view(*e), ind@));
                }
            } else {
                out.append(ind.as_str());
                out.append("class ");
                out.append(name.as_str());
                if !c.parent.as_str().is_empty() {
                    out.append(": ");
                    out.append(c.parent.as_str());
                }
                match &c.entries {
                    Some(es) => {
                        out.append(" {\n");
                        let mut ind2 = ind.clone();
                        ind2.append("    ");
                        entries_append(es, &ind2, out);
                        out.append(ind.as_str());
                        out.append("};\n");
                        proof {
                            assert(c.parent@.len() == 0 ==> ind@ + "class "@ + name@
                                + Seq::<char>::empty() =~= ind@ + "class "@ + name@);
                            assert(final(out)@ =~= old(out)@ + s_entry_text(
                                name@,
                                entry_view(*e),
                                ind@,
                            ));
                        }
                    },
                    None => {
                        out.append(" {};\n");
                        proof {
                            assert(c.parent@.len() == 0 ==> ind@ + "class "@ + name@
                                + Seq::<char>::empty() =~= ind@ + "class "@ + name@);
                            assert(final(out)@ =~= old(out)@ + s_entry_text(
                                name@,
                                entry_view(*e),
                                ind@,
                            ));
                        }
                    },
                }
            }
        },
    }
}

/// Append the text of an entry list, line by line.
#[verifier::loop_isolation(false)]
fn entries_append(v: &Vec<(String, ConfigEntry)>, ind: &String, out: &mut String)
    ensures
        final(out)@ == old(out)@ + s_entries_text(entries_view(v@), ind@),
    decreases v,
{
    broadcast use lemma_entries_view_index;

    let n = v.len();
    let mut i: usize = 0;
    while i < n
        invariant
            i <= n,
            n == v@.len(),
            out@ == old(out)@ + s_entries_text(entries_view(v@.take(i as int)), ind@),
        decreases n - i,
    {
        entry_append(&v[i].0, &v[i].1, ind, out);
        proof {
            let pre = entries_view(v@.take(i as int));
            let cur = entries_view(v@.take(i + 1));
            assert(v@.take(i + 1) =~= v@.take(i as int).push(v@[i as int]));
            assert(cur =~= pre.push((v@[i as int].0@, entry_view(v@[i as int].1))));
            lemma_entries_text_snoc(pre, (v@[i as int].0@, entry_view(v@[i as int].1)), ind@);
            assert(out@ =~= old(out)@ + s_entries_text(cur, ind@));
        }
        i = i + 1;
    }
    proof {
        assert(v@.take(n as int) =~= v@);
    }
}

impl Config {
    /// The stable serialized text of this tree.  The result is a function
    /// of the tree alone: a given tree instance always serializes to the
    /// same text, with field order and numeric formatting preserved.
    pub fn to_text(&self) -> (r: String)
        ensures
            r@ == s_config_text(class_view(self.root)),
    {
        let mut out = String::new();
        match &self.root.entries {
            Some(es) => {
                let ind = String::new();
                entries_append(es, &ind, &mut out);
            },
            None => {},
        }
        out
    }
}

} // verus!

verus! {

/// Copy one array element, preserving its model exactly.
fn clone_elem(e: &ArrayElement) -> (r: ArrayElement)
    ensures
        elem_view(r) == elem_view(*e),
    decreases e,
{
    match e {
        ArrayElement::Str(s) => ArrayElement::Str(s.clone()),
        ArrayElement::Float(x) => ArrayElement::Float(*x),
        ArrayElement::Int(x) => ArrayElement::Int(*x),
        ArrayElement::Array(v) => ArrayElement::Array(clone_elems(v)),
    }
}

/// Copy an element list, preserving its model exactly.
#[verifier::loop_isolation(false)]
fn clone_elems(v: &Vec<ArrayElement>) -> (r: Vec<ArrayElement>)
    ensures
        elems_view(r@) == elems_view(v@),
    decreases v,
{
    broadcast use lemma_elems_view_index;

    let n = v.len();
    let mut out: Vec<ArrayElement> = Vec::new();
    let mut i: usize = 0;
    while i < n
        invariant
            i <= n,
            n == v@.len(),
            out@.len() == i,
            forall|k: int| 0 <= k < i ==> elem_view(#[trigger] out@[k]) == elem_view(v@[k]),
        decreases n - i,
    {
        out.push(clone_elem(&v[i]));
        i = i + 1;
    }
    proof {
        assert(elems_view(out@) =~= elems_view(v@));
    }
    out
}

/// Copy one entry, preserving its model exactly.
fn clone_entry(e: &ConfigEntry) -> (r: ConfigEntry)
    ensures
        entry_view(r) == entry_view(*e),
    decreases e,
{
    match e {
        ConfigEntry::Str(s) => ConfigEntry::Str(s.clone()),
        ConfigEntry::Float(x) => ConfigEntry::Float(*x),
        ConfigEntry::Int(x) => ConfigEntry::Int(*x),
        ConfigEntry::Array(v) => ConfigEntry::Array(clone_elems(v)),
        ConfigEntry::Class(c) => ConfigEntry::Class(clone_class(c)),
    }
}

/// Copy an entry list, preserving its model exactly.
#[verifier::loop_isolation(false)]
pub fn clone_entries(v: &Vec<(String, ConfigEntry)>) -> (r: Vec<(String, ConfigEntry)>)
    ensures
        entries_view(r@) == entries_view(v@),
    decreases v,
{
    broadcast use lemma_entries_view_index;

    let n = v.len();
    let mut out: Vec<(String, ConfigEntry)> = Vec::new();
    let mut i: usize = 0;
    while i < n
        invariant
            i <= n,
            n == v@.len(),
            out@.len() == i,
            forall|k: int|
                0 <= k < i ==> (#[trigger] out@[k]).0@ == v@[k].0@ && entry_view(out@[k].1)
                    == entry_view(v@[k].1),
        decreases n - i,
    {
        let name = v[i].0.clone();
        let e = clone_entry(&v[i].1);
        out.push((name, e));
        i = i + 1;
    }
    proof {
        assert(entries_view(out@) =~= entries_view(v@));
    }
    out
}

/// Copy a class, preserving its model exactly.
fn clone_class(c: &ConfigClass) -> (r: ConfigClass)
    ensures
        class_view(r) == class_view(*c),
    decreases c,
{
    let entries = match &c.entries {
        Some(v) => Some(clone_entries(v)),
        None => None,
    };
    ConfigClass {
        parent: c.parent.clone(),
        is_external: c.is_external,
        is_deletion: c.is_deletion,
        entries,
    }
}

impl Clone for ConfigEntry {
    /// A copy whose model equals the original's.
    fn clone(&self) -> (r: Self)
        ensures
            entry_view(r) == entry_view(*self),
    {
        clone_entry(self)
    }
}

impl Clone for Config {
    /// A copy whose model equals the original's.
    fn clone(&self) -> (r: Self)
        ensures
            class_view(r.root) == class_view(self.root),
    {
        Config { root: clone_class(&self.root) }
    }
}

} // verus!
