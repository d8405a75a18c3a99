//! CMSIS-SVD reader (the subset grounding needs). Handles `derivedFrom`
//! peripherals and the three common field bit encodings, so a full vendor
//! .svd works, not just a bundled excerpt.

use vstd::prelude::*;
use crate::model::{
    fields_view, peripheral_index, peripherals_view, registers_view, Device, DeviceModel, Field,
    FieldModel, Peripheral, PeripheralModel, Register, RegisterModel, find_peripheral,
};
use crate::num::{parse_radix, parse_radix_exec};
use crate::text::{
    chars_of, contains, contains_spec, find, find_spec, push_str, slice, str_eq, string_of, trim,
    trim_by, trim_chars, trim_spec, Strip,
};
use crate::xml::{
    ids_in, kids, kids_in, nodes_at, parse_xml, table_ok, xml_document, XmlDocument, XmlNode,
};

verus! {

// ---------------------------------------------------------------------------
// Reading the element tree
// ---------------------------------------------------------------------------

/// `Node::has_tag_name`: an element with local name `t`.
pub open spec fn is_tag(n: XmlNode, t: Seq<char>) -> bool {
    n.is_element && n.name@ == t
}

/// Index of the first child element named `t`.
pub open spec fn child_index(ch: Seq<XmlNode>, t: Seq<char>) -> Option<int>
    decreases ch.len(),
{
    if ch.len() == 0 {
        None
    } else if is_tag(ch[0], t) {
        Some(0)
    } else {
        match child_index(ch.drop_first(), t) {
            Some(i) => Some(i + 1),
            None => None,
        }
    }
}

/// The trimmed text of a node, when it is not empty.
pub open spec fn text_of(n: XmlNode) -> Option<Seq<char>> {
    match n.text {
        Some(s) => if trim_spec(s@).len() > 0 {
            Some(trim_spec(s@))
        } else {
            None
        },
        None => None,
    }
}

/// The trimmed, non-empty text of the first child element named `t`.
pub open spec fn child_text(doc: Seq<XmlNode>, n: XmlNode, t: Seq<char>) -> Option<Seq<char>> {
    match child_index(kids(doc, n), t) {
        Some(i) => text_of(kids(doc, n)[i]),
        None => None,
    }
}

/// The value of the first attribute with local name `a`.
pub open spec fn attribute_spec(attrs: Seq<(String, String)>, a: Seq<char>) -> Option<Seq<char>>
    decreases attrs.len(),
{
    if attrs.len() == 0 {
        None
    } else if attrs[0].0@ == a {
        Some(attrs[0].1@)
    } else {
        attribute_spec(attrs.drop_first(), a)
    }
}

/// An SVD number: trimmed, hexadecimal after `0x`/`0X`, otherwise decimal;
/// `None` unless it fits below `max`.
pub open spec fn parse_num(s: Seq<char>, max: nat) -> Option<nat> {
    let t = trim_spec(s);
    if t.len() >= 2 && t[0] == '0' && (t[1] == 'x' || t[1] == 'X') {
        parse_radix(t.subrange(2, t.len() as int), 16, max)
    } else {
        parse_radix(t, 10, max)
    }
}

pub open spec fn num32(o: Option<Seq<char>>) -> Option<u32> {
    match o {
        Some(s) => match parse_num(s, u32::MAX as nat) {
            Some(v) => Some(v as u32),
            None => None,
        },
        None => None,
    }
}

pub open spec fn num64(o: Option<Seq<char>>) -> Option<u64> {
    match o {
        Some(s) => match parse_num(s, u64::MAX as nat) {
            Some(v) => Some(v as u64),
            None => None,
        },
        None => None,
    }
}

/// The width of bits `lsb..=msb`, as the release build computes
/// `msb - lsb + 1` in `u32`.
pub open spec fn span_width(lsb: u32, msb: u32) -> u32 {
    ((msb - lsb + 1) % 0x1_0000_0000) as u32
}

/// `[msb:lsb]`: brackets trimmed, exactly one `:`, both numbers, `msb >= lsb`.
pub open spec fn bit_range(br: Seq<char>) -> Option<(u32, u32)> {
    let t = trim_by(Strip::Brackets, br);
    match find_spec(t, seq![':']) {
        Some(p) => {
            let a = t.subrange(0, p);
            let b = t.subrange(p + 1, t.len() as int);
            if contains_spec(b, seq![':']) {
                None
            } else {
                match (num32(Some(a)), num32(Some(b))) {
                    (Some(msb), Some(lsb)) => if msb >= lsb {
                        Some((lsb, span_width(lsb, msb)))
                    } else {
                        None
                    },
                    _ => None,
                }
            }
        },
        None => None,
    }
}

/// A field's (offset, width): `bitOffset`+`bitWidth`, else `lsb`+`msb`, else
/// `bitRange`.
pub open spec fn field_bits_spec(doc: Seq<XmlNode>, f: XmlNode) -> Option<(u32, u32)> {
    match (num32(child_text(doc, f, "bitOffset"@)), num32(child_text(doc, f, "bitWidth"@))) {
        (Some(o), Some(w)) => Some((o, w)),
        _ => {
            let lm = match (num32(child_text(doc, f, "lsb"@)), num32(child_text(doc, f, "msb"@))) {
                (Some(l), Some(m)) => if m >= l {
                    Some((l, span_width(l, m)))
                } else {
                    None
                },
                _ => None,
            };
            if lm is Some {
                lm
            } else {
                match child_text(doc, f, "bitRange"@) {
                    Some(br) => bit_range(br),
                    None => None,
                }
            }
        },
    }
}

/// A `<field>`: skipped (None) without a name or without bits.
pub open spec fn field_spec(doc: Seq<XmlNode>, f: XmlNode) -> Option<FieldModel> {
    match child_text(doc, f, "name"@) {
        None => None,
        Some(name) => match field_bits_spec(doc, f) {
            None => None,
            Some(bits) => Some(
                FieldModel {
                    name,
                    description: child_text(doc, f, "description"@),
                    bit_offset: bits.0,
                    bit_width: bits.1,
                },
            ),
        },
    }
}

/// The fields among the children of `<fields>`, in order.
pub open spec fn fields_of(doc: Seq<XmlNode>, ch: Seq<XmlNode>) -> Seq<FieldModel>
    decreases ch.len(),
{
    if ch.len() == 0 {
        Seq::empty()
    } else {
        fields_of(doc, ch.drop_last()) + (if is_tag(ch.last(), "field"@) {
            match field_spec(doc, ch.last()) {
                Some(x) => seq![x],
                None => Seq::empty(),
            }
        } else {
            Seq::empty()
        })
    }
}

/// A `<register>`; a register must have a name.
pub open spec fn register_spec(doc: Seq<XmlNode>, r: XmlNode) -> Result<RegisterModel, Seq<char>> {
    match child_text(doc, r, "name"@) {
        None => Err("register without <name>"@),
        Some(name) => Ok(
            RegisterModel {
                name,
                description: child_text(doc, r, "description"@),
                address_offset: match num64(child_text(doc, r, "addressOffset"@)) {
                    Some(v) => v,
                    None => 0,
                },
                fields: match child_index(kids(doc, r), "fields"@) {
                    Some(i) => fields_of(doc, kids(doc, kids(doc, r)[i])),
                    None => Seq::empty(),
                },
            },
        ),
    }
}

/// The registers among the children of `<registers>`, or the first error.
pub open spec fn registers_of(doc: Seq<XmlNode>, ch: Seq<XmlNode>) -> Result<Seq<RegisterModel>, Seq<char>>
    decreases ch.len(),
{
    if ch.len() == 0 {
        Ok(Seq::empty())
    } else {
        match registers_of(doc, ch.drop_last()) {
            Err(e) => Err(e),
            Ok(rs) => if is_tag(ch.last(), "register"@) {
                match register_spec(doc, ch.last()) {
                    Ok(r) => Ok(rs.push(r)),
                    Err(e) => Err(e),
                }
            } else {
                Ok(rs)
            },
        }
    }
}

/// A `<peripheral>`; a peripheral must have a name.
pub open spec fn peripheral_spec(doc: Seq<XmlNode>, p: XmlNode) -> Result<PeripheralModel, Seq<char>> {
    match child_text(doc, p, "name"@) {
        None => Err("peripheral without <name>"@),
        Some(name) => {
            let regs = match child_index(kids(doc, p), "registers"@) {
                Some(i) => registers_of(doc, kids(doc, kids(doc, p)[i])),
                None => Ok(Seq::empty()),
            };
            match regs {
                Err(e) => Err(e),
                Ok(rs) => Ok(
                    PeripheralModel {
                        name,
                        description: child_text(doc, p, "description"@),
                        base_address: match num64(child_text(doc, p, "baseAddress"@)) {
                            Some(v) => v,
                            None => 0,
                        },
                        derived_from: attribute_spec(p.attributes@, "derivedFrom"@),
                        registers: rs,
                    },
                ),
            }
        },
    }
}

/// The peripherals among the children of `<peripherals>`, or the first error.
pub open spec fn peripherals_of(doc: Seq<XmlNode>, ch: Seq<XmlNode>) -> Result<Seq<PeripheralModel>, Seq<char>>
    decreases ch.len(),
{
    if ch.len() == 0 {
        Ok(Seq::empty())
    } else {
        match peripherals_of(doc, ch.drop_last()) {
            Err(e) => Err(e),
            Ok(ps) => if is_tag(ch.last(), "peripheral"@) {
                match peripheral_spec(doc, ch.last()) {
                    Ok(p) => Ok(ps.push(p)),
                    Err(e) => Err(e),
                }
            } else {
                Ok(ps)
            },
        }
    }
}

/// A peripheral declared with `derivedFrom` and no registers of its own
/// inherits the registers of the first peripheral (as parsed, ASCII case
/// ignored) with that name.
pub open spec fn resolved(ps: Seq<PeripheralModel>, i: int) -> PeripheralModel {
    let p = ps[i];
    if p.registers.len() == 0 {
        match p.derived_from {
            Some(src) => match peripheral_index(ps, src) {
                Some(j) => PeripheralModel { registers: ps[j].registers, ..p },
                None => p,
            },
            None => p,
        }
    } else {
        p
    }
}

pub open spec fn resolve_spec(ps: Seq<PeripheralModel>) -> Seq<PeripheralModel> {
    Seq::new(ps.len(), |i: int| resolved(ps, i))
}

/// The device that an SVD document's root element describes, or the error.
pub open spec fn device_spec(doc: Seq<XmlNode>, root: XmlNode) -> Result<DeviceModel, Seq<char>> {
    if !is_tag(root, "device"@) {
        Err("expected <device> root, found <"@ + root.name@ + ">"@)
    } else {
        let ps = match child_index(kids(doc, root), "peripherals"@) {
            Some(i) => peripherals_of(doc, kids(doc, kids(doc, root)[i])),
            None => Ok(Seq::empty()),
        };
        match ps {
            Err(e) => Err(e),
            Ok(ps) => Ok(
                DeviceModel {
                    name: match child_text(doc, root, "name"@) {
                        Some(n) => n,
                        None => Seq::empty(),
                    },
                    description: child_text(doc, root, "description"@),
                    peripherals: resolve_spec(ps),
                },
            ),
        }
    }
}

/// The device that an SVD text describes, or the error.
pub open spec fn svd_spec(xml: Seq<char>) -> Result<DeviceModel, Seq<char>> {
    match xml_document(xml) {
        Ok((doc, root)) => device_spec(doc, doc[root as int]),
        Err(e) => Err(e),
    }
}

pub open spec fn device_result_view(r: Result<Device, String>) -> Result<DeviceModel, Seq<char>> {
    match r {
        Ok(d) => Ok(d@),
        Err(e) => Err(e@),
    }
}

// ---------------------------------------------------------------------------
// Executable reader
// ---------------------------------------------------------------------------

pub open spec fn opt_chars(o: Option<Vec<char>>) -> Option<Seq<char>> {
    match o {
        Some(v) => Some(v@),
        None => None,
    }
}

proof fn lemma_child_index(ch: Seq<XmlNode>, t: Seq<char>, i: int)
    requires
        0 <= i <= ch.len(),
        forall|j: int| 0 <= j < i ==> !is_tag(#[trigger] ch[j], t),
    ensures
        child_index(ch, t) == match child_index(ch.subrange(i, ch.len() as int), t) {
            Some(k) => Some(k + i),
            None => None::<int>,
        },
    decreases i,
{
    if i == 0 {
        assert(ch.subrange(0, ch.len() as int) =~= ch);
        match child_index(ch, t) {
            Some(k) => {},
            None => {},
        }
    } else {
        let s = ch.drop_first();
        assert(!is_tag(ch[0], t));
        assert forall|j: int| 0 <= j < i - 1 implies !is_tag(#[trigger] s[j], t) by {
            assert(s[j] == ch[j + 1]);
        }
        lemma_child_index(s, t, i - 1);
        assert(s.subrange(i - 1, s.len() as int) =~= ch.subrange(i, ch.len() as int));
    }
}

fn is_tag_exec(n: &XmlNode, t: &str) -> (r: bool)
    ensures
        r == is_tag(*n, t@),
{
    n.is_element && str_eq(n.name.as_str(), t)
}

/// The position of the first child element of `n` named `t`.
fn find_child(doc: &Vec<XmlNode>, n: &XmlNode, t: &str) -> (r: Option<usize>)
    requires
        kids_in(doc@, *n),
    ensures
        match child_index(kids(doc@, *n), t@) {
            Some(i) => 0 <= i < n.children@.len() && r == Some(n.children@[i]) && kids(doc@, *n)[i]
                == doc@[n.children@[i] as int],
            None => r is None,
        },
        r matches Some(k) ==> k < doc@.len(),
{
    let ghost ch = kids(doc@, *n);
    let mut i: usize = 0;
    while i < n.children.len()
        invariant
            i <= n.children.len(),
            kids_in(doc@, *n),
            ch == kids(doc@, *n),
            forall|j: int| 0 <= j < i ==> !is_tag(#[trigger] ch[j], t@),
        decreases n.children.len() - i,
    {
        let k = n.children[i];
        assert(n.children@[i as int] < doc@.len());
        assert(ch[i as int] == doc@[k as int]);
        if is_tag_exec(&doc[k], t) {
            proof {
                lemma_child_index(ch, t@, i as int);
                assert(ch.subrange(i as int, ch.len() as int)[0] == ch[i as int]);
            }
            return Some(k);
        }
        i += 1;
    }
    proof {
        lemma_child_index(ch, t@, i as int);
    }
    None
}

fn text_exec(n: &XmlNode) -> (r: Option<Vec<char>>)
    ensures
        opt_chars(r) == text_of(*n),
{
    match &n.text {
        Some(s) => {
            let t = trim(&chars_of(s.as_str()));
            if t.len() > 0 {
                Some(t)
            } else {
                None
            }
        },
        None => None,
    }
}

fn child_text_exec(doc: &Vec<XmlNode>, n: &XmlNode, t: &str) -> (r: Option<Vec<char>>)
    requires
        kids_in(doc@, *n),
    ensures
        opt_chars(r) == child_text(doc@, *n, t@),
{
    match find_child(doc, n, t) {
        Some(k) => text_exec(&doc[k]),
        None => None,
    }
}

fn attribute_exec(attrs: &Vec<(String, String)>, a: &str) -> (r: Option<String>)
    ensures
        r.deep_view() == attribute_spec(attrs@, a@),
{
    let mut i: usize = 0;
    assert(attrs@.subrange(0, attrs@.len() as int) =~= attrs@);
    while i < attrs.len()
        invariant
            i <= attrs.len(),
            attribute_spec(attrs@, a@) == attribute_spec(
                attrs@.subrange(i as int, attrs@.len() as int),
                a@,
            ),
        decreases attrs.len() - i,
    {
        let ghost rest = attrs@.subrange(i as int, attrs@.len() as int);
        assert(rest[0] == attrs@[i as int]);
        if str_eq(attrs[i].0.as_str(), a) {
            return Some(attrs[i].1.clone());
        }
        assert(rest.drop_first() =~= attrs@.subrange(i + 1, attrs@.len() as int));
        i += 1;
    }
    None
}

fn parse_num_exec(s: &Vec<char>, max: u64) -> (r: Option<u64>)
    ensures
        r matches Some(v) ==> parse_num(s@, max as nat) == Some(v as nat),
        r is None ==> parse_num(s@, max as nat) is None,
{
    let t = trim(s);
    if t.len() >= 2 && t[0] == '0' && (t[1] == 'x' || t[1] == 'X') {
        let h = slice(&t, 2, t.len());
        parse_radix_exec(&h, 16, max)
    } else {
        parse_radix_exec(&t, 10, max)
    }
}

fn num32_exec(o: &Option<Vec<char>>) -> (r: Option<u32>)
    ensures
        r == num32(opt_chars(*o)),
{
    match o {
        Some(s) => match parse_num_exec(s, u32::MAX as u64) {
            Some(v) => Some(v as u32),
            None => None,
        },
        None => None,
    }
}

fn num64_exec(o: &Option<Vec<char>>) -> (r: Option<u64>)
    ensures
        r == num64(opt_chars(*o)),
{
    match o {
        Some(s) => parse_num_exec(s, u64::MAX),
        None => None,
    }
}

fn bit_range_exec(br: &Vec<char>) -> (r: Option<(u32, u32)>)
    ensures
        r == bit_range(br@),
{
    let t = trim_chars(&Strip::Brackets, br);
    let colon = vec![':'];
    assert(colon@ =~= seq![':']);
    match find(&t, &colon) {
        Some(p) => {
            let a = slice(&t, 0, p);
            let b = slice(&t, p + 1, t.len());
            if contains(&b, &colon) {
                None
            } else {
                let sa = Some(a);
                let sb = Some(b);
                match (num32_exec(&sa), num32_exec(&sb)) {
                    (Some(msb), Some(lsb)) => if msb >= lsb {
                        let w = (msb - lsb).wrapping_add(1);
                        assert(w == span_width(lsb, msb));
                        Some((lsb, w))
                    } else {
                        None
                    },
                    _ => None,
                }
            }
        },
        None => None,
    }
}

fn field_bits_exec(doc: &Vec<XmlNode>, f: &XmlNode) -> (r: Option<(u32, u32)>)
    requires
        kids_in(doc@, *f),
    ensures
        r == field_bits_spec(doc@, *f),
{
    let o = num32_exec(&child_text_exec(doc, f, "bitOffset"));
    let w = num32_exec(&child_text_exec(doc, f, "bitWidth"));
    if let (Some(o), Some(w)) = (o, w) {
        return Some((o, w));
    }
    let l = num32_exec(&child_text_exec(doc, f, "lsb"));
    let m = num32_exec(&child_text_exec(doc, f, "msb"));
    if let (Some(lsb), Some(msb)) = (l, m) {
        if msb >= lsb {
            let w = (msb - lsb).wrapping_add(1);
            assert(w == span_width(lsb, msb));
            return Some((lsb, w));
        }
    }
    match child_text_exec(doc, f, "bitRange") {
        Some(br) => bit_range_exec(&br),
        None => None,
    }
}

fn opt_string(o: Option<Vec<char>>) -> (r: Option<String>)
    ensures
        r.deep_view() == opt_chars(o),
{
    match o {
        Some(v) => Some(string_of(&v)),
        None => None,
    }
}

fn parse_field(doc: &Vec<XmlNode>, f: &XmlNode) -> (r: Option<Field>)
    requires
        kids_in(doc@, *f),
    ensures
        r matches Some(x) ==> field_spec(doc@, *f) == Some(x@),
        r is None ==> field_spec(doc@, *f) is None,
{
    let name = match child_text_exec(doc, f, "name") {
        Some(n) => n,
        None => return None,
    };
    let description = opt_string(child_text_exec(doc, f, "description"));
    let (bit_offset, bit_width) = match field_bits_exec(doc, f) {
        Some(b) => b,
        None => return None,
    };
    let x = Field { name: string_of(&name), description, bit_offset, bit_width };
    assert(field_spec(doc@, *f) == Some(x@));
    Some(x)
}

fn parse_fields(doc: &Vec<XmlNode>, ids: &Vec<usize>) -> (r: Vec<Field>)
    requires
        table_ok(doc@),
        ids_in(doc@, ids@),
    ensures
        fields_view(r@) == fields_of(doc@, nodes_at(doc@, ids@)),
{
    let ghost ch = nodes_at(doc@, ids@);
    let mut out: Vec<Field> = Vec::new();
    let mut i: usize = 0;
    assert(ch.subrange(0, 0) =~= Seq::<XmlNode>::empty());
    assert(fields_view(out@) =~= fields_of(doc@, ch.subrange(0, 0)));
    while i < ids.len()
        invariant
            i <= ids.len(),
            ch == nodes_at(doc@, ids@),
            table_ok(doc@),
            ids_in(doc@, ids@),
            fields_view(out@) == fields_of(doc@, ch.subrange(0, i as int)),
        decreases ids.len() - i,
    {
        let k = ids[i];
        assert(ids@[i as int] < doc@.len());
        let ghost pre = ch.subrange(0, i as int);
        let ghost cur = ch.subrange(0, i + 1);
        assert(cur.drop_last() =~= pre);
        assert(cur.last() == doc@[k as int]);
        assert(kids_in(doc@, doc@[k as int]));
        let ghost before = fields_view(out@);
        if is_tag_exec(&doc[k], "field") {
            match parse_field(doc, &doc[k]) {
                Some(x) => {
                    out.push(x);
                    assert(fields_view(out@) =~= before + seq![x@]);
                },
                None => {
                    assert(before + Seq::<FieldModel>::empty() =~= before);
                },
            }
        } else {
            assert(before + Seq::<FieldModel>::empty() =~= before);
        }
        i += 1;
    }
    assert(ch.subrange(0, ids.len() as int) =~= ch);
    out
}

fn parse_register(doc: &Vec<XmlNode>, r: &XmlNode) -> (res: Result<Register, String>)
    requires
        table_ok(doc@),
        kids_in(doc@, *r),
    ensures
        res matches Ok(x) ==> register_spec(doc@, *r) == Ok::<RegisterModel, Seq<char>>(x@),
        res matches Err(e) ==> register_spec(doc@, *r) == Err::<RegisterModel, Seq<char>>(e@),
{
    let name = match child_text_exec(doc, r, "name") {
        Some(n) => n,
        None => return Err("register without <name>".to_owned()),
    };
    let address_offset = match num64_exec(&child_text_exec(doc, r, "addressOffset")) {
        Some(v) => v,
        None => 0,
    };
    let description = opt_string(child_text_exec(doc, r, "description"));
    let fields = match find_child(doc, r, "fields") {
        Some(k) => {
            assert(kids_in(doc@, doc@[k as int]));
            parse_fields(doc, &doc[k].children)
        },
        None => Vec::new(),
    };
    let x = Register { name: string_of(&name), description, address_offset, fields };
    let ghost want = RegisterModel {
        name: name@,
        description: child_text(doc@, *r, "description"@),
        address_offset: match num64(child_text(doc@, *r, "addressOffset"@)) {
            Some(v) => v,
            None => 0,
        },
        fields: match child_index(kids(doc@, *r), "fields"@) {
            Some(i) => fields_of(doc@, kids(doc@, kids(doc@, *r)[i])),
            None => Seq::empty(),
        },
    };
    assert(x@.fields == want.fields);
    assert(x@ =~= want);
    assert(register_spec(doc@, *r) == Ok::<RegisterModel, Seq<char>>(x@));
    Ok(x)
}

fn parse_registers(doc: &Vec<XmlNode>, ids: &Vec<usize>) -> (r: Result<Vec<Register>, String>)
    requires
        table_ok(doc@),
        ids_in(doc@, ids@),
    ensures
        r matches Ok(v) ==> registers_of(doc@, nodes_at(doc@, ids@)) == Ok::<
            Seq<RegisterModel>,
            Seq<char>,
        >(registers_view(v@)),
        r matches Err(e) ==> registers_of(doc@, nodes_at(doc@, ids@)) == Err::<
            Seq<RegisterModel>,
            Seq<char>,
        >(e@),
{
    let ghost ch = nodes_at(doc@, ids@);
    let mut out: Vec<Register> = Vec::new();
    let mut i: usize = 0;
    assert(ch.subrange(0, 0) =~= Seq::<XmlNode>::empty());
    assert(registers_view(out@) =~= Seq::<RegisterModel>::empty());
    while i < ids.len()
        invariant
            i <= ids.len(),
            ch == nodes_at(doc@, ids@),
            table_ok(doc@),
            ids_in(doc@, ids@),
            registers_of(doc@, ch.subrange(0, i as int)) == Ok::<Seq<RegisterModel>, Seq<char>>(
                registers_view(out@),
            ),
        decreases ids.len() - i,
    {
        let k = ids[i];
        assert(ids@[i as int] < doc@.len());
        let ghost pre = ch.subrange(0, i as int);
        let ghost cur = ch.subrange(0, i + 1);
        assert(cur.drop_last() =~= pre);
        assert(cur.last() == doc@[k as int]);
        assert(kids_in(doc@, doc@[k as int]));
        let ghost before = registers_view(out@);
        if is_tag_exec(&doc[k], "register") {
            match parse_register(doc, &doc[k]) {
                Ok(x) => {
                    out.push(x);
                    assert(registers_view(out@) =~= before.push(x@));
                },
                Err(e) => {
                    proof {
                        lemma_registers_err(doc@, ch, i as int, e@);
                    }
                    return Err(e);
                },
            }
        }
        i += 1;
    }
    assert(ch.subrange(0, ids.len() as int) =~= ch);
    Ok(out)
}

proof fn lemma_registers_err(doc: Seq<XmlNode>, ch: Seq<XmlNode>, i: int, e: Seq<char>)
    requires
        0 <= i < ch.len(),
        registers_of(doc, ch.subrange(0, i + 1)) == Err::<Seq<RegisterModel>, Seq<char>>(e),
    ensures
        registers_of(doc, ch) == Err::<Seq<RegisterModel>, Seq<char>>(e),
    decreases ch.len() - i,
{
    if i + 1 == ch.len() {
        assert(ch.subrange(0, i + 1) =~= ch);
    } else {
        let cur = ch.subrange(0, i + 2);
        assert(cur.drop_last() =~= ch.subrange(0, i + 1));
        lemma_registers_err(doc, ch, i + 1, e);
    }
}

proof fn lemma_peripherals_err(doc: Seq<XmlNode>, ch: Seq<XmlNode>, i: int, e: Seq<char>)
    requires
        0 <= i < ch.len(),
        peripherals_of(doc, ch.subrange(0, i + 1)) == Err::<Seq<PeripheralModel>, Seq<char>>(e),
    ensures
        peripherals_of(doc, ch) == Err::<Seq<PeripheralModel>, Seq<char>>(e),
    decreases ch.len() - i,
{
    if i + 1 == ch.len() {
        assert(ch.subrange(0, i + 1) =~= ch);
    } else {
        let cur = ch.subrange(0, i + 2);
        assert(cur.drop_last() =~= ch.subrange(0, i + 1));
        lemma_peripherals_err(doc, ch, i + 1, e);
    }
}

fn parse_peripheral(doc: &Vec<XmlNode>, p: &XmlNode) -> (res: Result<Peripheral, String>)
    requires
        table_ok(doc@),
        kids_in(doc@, *p),
    ensures
        res matches Ok(x) ==> peripheral_spec(doc@, *p) == Ok::<PeripheralModel, Seq<char>>(x@),
        res matches Err(e) ==> peripheral_spec(doc@, *p) == Err::<PeripheralModel, Seq<char>>(e@),
{
    let name = match child_text_exec(doc, p, "name") {
        Some(n) => n,
        None => return Err("peripheral without <name>".to_owned()),
    };
    let derived_from = attribute_exec(&p.attributes, "derivedFrom");
    let base_address = match num64_exec(&child_text_exec(doc, p, "baseAddress")) {
        Some(v) => v,
        None => 0,
    };
    let description = opt_string(child_text_exec(doc, p, "description"));
    let registers = match find_child(doc, p, "registers") {
        Some(k) => {
            assert(kids_in(doc@, doc@[k as int]));
            match parse_registers(doc, &doc[k].children) {
                Ok(v) => v,
                Err(e) => return Err(e),
            }
        },
        None => {
            let v: Vec<Register> = Vec::new();
            assert(registers_view(v@) =~= Seq::<RegisterModel>::empty());
            v
        },
    };
    let x = Peripheral { name: string_of(&name), description, base_address, derived_from, registers };
    assert(peripheral_spec(doc@, *p) == Ok::<PeripheralModel, Seq<char>>(x@));
    Ok(x)
}

fn parse_peripherals(doc: &Vec<XmlNode>, ids: &Vec<usize>) -> (r: Result<Vec<Peripheral>, String>)
    requires
        table_ok(doc@),
        ids_in(doc@, ids@),
    ensures
        r matches Ok(v) ==> peripherals_of(doc@, nodes_at(doc@, ids@)) == Ok::<
            Seq<PeripheralModel>,
            Seq<char>,
        >(peripherals_view(v@)),
        r matches Err(e) ==> peripherals_of(doc@, nodes_at(doc@, ids@)) == Err::<
            Seq<PeripheralModel>,
            Seq<char>,
        >(e@),
{
    let ghost ch = nodes_at(doc@, ids@);
    let mut out: Vec<Peripheral> = Vec::new();
    let mut i: usize = 0;
    assert(ch.subrange(0, 0) =~= Seq::<XmlNode>::empty());
    assert(peripherals_view(out@) =~= Seq::<PeripheralModel>::empty());
    while i < ids.len()
        invariant
            i <= ids.len(),
            ch == nodes_at(doc@, ids@),
            table_ok(doc@),
            ids_in(doc@, ids@),
            peripherals_of(doc@, ch.subrange(0, i as int)) == Ok::<
                Seq<PeripheralModel>,
                Seq<char>,
            >(peripherals_view(out@)),
        decreases ids.len() - i,
    {
        let k = ids[i];
        assert(ids@[i as int] < doc@.len());
        let ghost pre = ch.subrange(0, i as int);
        let ghost cur = ch.subrange(0, i + 1);
        assert(cur.drop_last() =~= pre);
        assert(cur.last() == doc@[k as int]);
        assert(kids_in(doc@, doc@[k as int]));
        let ghost before = peripherals_view(out@);
        if is_tag_exec(&doc[k], "peripheral") {
            match parse_peripheral(doc, &doc[k]) {
                Ok(x) => {
                    out.push(x);
                    assert(peripherals_view(out@) =~= before.push(x@));
                },
                Err(e) => {
                    proof {
                        lemma_peripherals_err(doc@, ch, i as int, e@);
                    }
                    return Err(e);
                },
            }
        }
        i += 1;
    }
    assert(ch.subrange(0, ids.len() as int) =~= ch);
    Ok(out)
}

fn dup_registers(v: &Vec<Register>) -> (r: Vec<Register>)
    ensures
        registers_view(r@) == registers_view(v@),
{
    let mut r: Vec<Register> = Vec::new();
    let mut i: usize = 0;
    while i < v.len()
        invariant
            i <= v.len(),
            r@.len() == i,
            forall|j: int| 0 <= j < i ==> #[trigger] r@[j]@ == v@[j]@,
        decreases v.len() - i,
    {
        r.push(v[i].duplicate());
        i += 1;
    }
    assert(registers_view(r@) =~= registers_view(v@));
    r
}

impl Field {
    /// A field-by-field copy.
    pub fn duplicate(&self) -> (r: Field)
        ensures
            r@ == self@,
    {
        Field {
            name: self.name.clone(),
            description: crate::oracle::dup_opt(&self.description),
            bit_offset: self.bit_offset,
            bit_width: self.bit_width,
        }
    }
}

/// A copy of a list of fields.
pub fn dup_fields(v: &Vec<Field>) -> (r: Vec<Field>)
    ensures
        fields_view(r@) == fields_view(v@),
{
    let mut r: Vec<Field> = Vec::new();
    let mut i: usize = 0;
    while i < v.len()
        invariant
            i <= v.len(),
            r@.len() == i,
            forall|j: int| 0 <= j < i ==> #[trigger] r@[j]@ == v@[j]@,
        decreases v.len() - i,
    {
        r.push(v[i].duplicate());
        i += 1;
    }
    assert(fields_view(r@) =~= fields_view(v@));
    r
}

impl Register {
    /// A field-by-field copy.
    pub fn duplicate(&self) -> (r: Register)
        ensures
            r@ == self@,
    {
        Register {
            name: self.name.clone(),
            description: crate::oracle::dup_opt(&self.description),
            address_offset: self.address_offset,
            fields: dup_fields(&self.fields),
        }
    }
}

/// Peripherals declared with `derivedFrom` and no registers of their own
/// inherit the register set of the referenced peripheral.
fn resolve_derived(peripherals: &mut Vec<Peripheral>)
    ensures
        peripherals_view(final(peripherals)@) == resolve_spec(peripherals_view(old(peripherals)@)),
{
    let ghost snap = peripherals_view(peripherals@);
    let n = peripherals.len();
    let mut snapshot: Vec<Vec<Register>> = Vec::new();
    let mut names: Vec<Peripheral> = Vec::new();
    let mut k: usize = 0;
    while k < n
        invariant
            k <= n,
            n == peripherals.len(),
            snap == peripherals_view(peripherals@),
            snapshot@.len() == k,
            forall|j: int| 0 <= j < k ==> registers_view(#[trigger] snapshot@[j]@) == snap[j].registers,
        decreases n - k,
    {
        snapshot.push(dup_registers(&peripherals[k].registers));
        k += 1;
    }
    let mut out: Vec<Peripheral> = Vec::new();
    let mut i: usize = 0;
    while i < n
        invariant
            i <= n,
            n == peripherals.len(),
            snap == peripherals_view(peripherals@),
            snapshot@.len() == n,
            forall|j: int| 0 <= j < n ==> registers_view(#[trigger] snapshot@[j]@) == snap[j].registers,
            out@.len() == i,
            forall|j: int| 0 <= j < i ==> #[trigger] out@[j]@ == resolved(snap, j),
        decreases n - i,
    {
        let p = &peripherals[i];
        let mut q = Peripheral {
            name: p.name.clone(),
            description: crate::oracle::dup_opt(&p.description),
            base_address: p.base_address,
            derived_from: crate::oracle::dup_opt(&p.derived_from),
            registers: dup_registers(&p.registers),
        };
        assert(q@ == snap[i as int]);
        if p.registers.len() == 0 {
            if let Some(src) = &p.derived_from {
                match find_peripheral(peripherals, src.as_str()) {
                    Some(j) => {
                        q.registers = dup_registers(&snapshot[j]);
                        assert(q@ =~= resolved(snap, i as int));
                    },
                    None => {},
                }
            }
        }
        out.push(q);
        i += 1;
    }
    *peripherals = out;
    assert(peripherals_view(peripherals@) =~= resolve_spec(snap));
}

/// The device that a parsed SVD document's root element describes.
pub fn device_from_xml(xml_doc: &XmlDocument) -> (r: Result<Device, String>)
    requires
        xml_doc.wf(),
    ensures
        device_result_view(r) == device_spec(xml_doc.nodes@, xml_doc.nodes@[xml_doc.root as int]),
{
    let doc = &xml_doc.nodes;
    let root = &doc[xml_doc.root];
    assert(kids_in(doc@, *root));
    if !is_tag_exec(root, "device") {
        let mut msg: Vec<char> = Vec::new();
        push_str(&mut msg, "expected <device> root, found <");
        push_str(&mut msg, root.name.as_str());
        push_str(&mut msg, ">");
        return Err(string_of(&msg));
    }
    let name = match child_text_exec(doc, root, "name") {
        Some(n) => string_of(&n),
        None => String::new(),
    };
    let description = opt_string(child_text_exec(doc, root, "description"));
    let mut peripherals = match find_child(doc, root, "peripherals") {
        Some(k) => {
            assert(kids_in(doc@, doc@[k as int]));
            match parse_peripherals(doc, &doc[k].children) {
                Ok(v) => v,
                Err(e) => return Err(e),
            }
        },
        None => {
            let v: Vec<Peripheral> = Vec::new();
            assert(peripherals_view(v@) =~= Seq::<PeripheralModel>::empty());
            v
        },
    };
    resolve_derived(&mut peripherals);
    let d = Device { name, description, peripherals };
    assert(device_result_view(Ok(d)) == device_spec(doc@, *root));
    Ok(d)
}

/// Parses an SVD text into its device model.
pub fn parse_svd(xml: &str) -> (r: Result<Device, String>)
    ensures
        device_result_view(r) == svd_spec(xml@),
{
    match parse_xml(xml) {
        Ok(d) => device_from_xml(&d),
        Err(e) => Err(e),
    }
}

} // verus!
