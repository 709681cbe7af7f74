//! Control requests and their JSON text form.
//!
//! The object always carries `Opcode` and `Space`, then `Flags` and
//! `Operands` when present, in that order. String values are quoted and
//! escaped by serde_json; the object layout is built here.

use vstd::prelude::*;

verus! {

/// The operation a request performs.
#[derive(Clone, Copy, Debug, PartialEq, Eq, Structural)]
pub enum Opcode {
    Attach,
    DeviceList,
    GetAddress,
    Info,
    List,
    PutFile,
    Remove,
}

/// The resource domain a request targets.
#[derive(Clone, Copy, Debug, PartialEq, Eq, Structural)]
pub enum Space {
    Snes,
}

/// One control request.
#[derive(Debug)]
pub struct Request {
    pub opcode: Opcode,
    pub space: Space,
    pub flags: Option<Vec<String>>,
    pub ops: Option<Vec<String>>,
}

/// Why a request could not be encoded.
#[derive(Clone, Copy, Debug, PartialEq, Eq, Structural)]
pub struct EncodingError;

#[verifier::external_type_specification]
#[verifier::external_body]
pub struct ExJsonError(serde_json::Error);

/// A lower-case hexadecimal digit, for a value below sixteen.
pub open spec fn lower_hex_digit(d: nat) -> char {
    if d < 10 {
        ((d + 48) as u8) as char
    } else {
        ((d + 87) as u8) as char
    }
}

/// How one character appears inside a JSON string: `"` and `\` and the
/// control characters below 0x20 are escaped (the short forms `\b`, `\t`,
/// `\n`, `\f`, `\r` where they exist, else `\u00` and two lower-case hex
/// digits); every other character stands as it is.
pub open spec fn escape_char(c: char) -> Seq<char> {
    if c == '"' {
        seq!['\\', '"']
    } else if c == '\\' {
        seq!['\\', '\\']
    } else if c == '\u{08}' {
        seq!['\\', 'b']
    } else if c == '\t' {
        seq!['\\', 't']
    } else if c == '\n' {
        seq!['\\', 'n']
    } else if c == '\u{0C}' {
        seq!['\\', 'f']
    } else if c == '\r' {
        seq!['\\', 'r']
    } else if (c as u32) < 32 {
        seq![
            '\\',
            'u',
            '0',
            '0',
            lower_hex_digit((c as u32 / 16) as nat),
            lower_hex_digit((c as u32 % 16) as nat),
        ]
    } else {
        seq![c]
    }
}

/// The JSON string literal for `s`: quoted, each character escaped as
/// [`escape_char`] says.
pub open spec fn json_str_of(s: Seq<char>) -> Seq<char> {
    seq!['"'] + s.map_values(|c: char| escape_char(c)).flatten() + seq!['"']
}

/// Relies on `serde_json::to_string` applied to a `str`. Serialising a `str`
/// writes into a `Vec`, which cannot fail, so the result is always `Ok`: the
/// text as [`json_str_of`] gives it.
#[verifier::external_body]
fn json_quote(s: &str) -> (r: Result<String, serde_json::Error>)
    ensures
        r is Ok,
        r matches Ok(t) ==> t@ == json_str_of(s@),
{
    serde_json::to_string(s)
}

/// The wire name of an opcode.
pub open spec fn opcode_name(op: Opcode) -> Seq<char> {
    match op {
        Opcode::Attach => "Attach"@,
        Opcode::DeviceList => "DeviceList"@,
        Opcode::GetAddress => "GetAddress"@,
        Opcode::Info => "Info"@,
        Opcode::List => "List"@,
        Opcode::PutFile => "PutFile"@,
        Opcode::Remove => "Remove"@,
    }
}

/// The wire name of a space.
pub open spec fn space_name(s: Space) -> Seq<char> {
    match s {
        Space::Snes => "SNES"@,
    }
}

pub open spec fn quoted(s: Seq<char>) -> Seq<char> {
    "\""@ + s + "\""@
}

/// `items` joined with `sep` between neighbours.
pub open spec fn join(items: Seq<Seq<char>>, sep: Seq<char>) -> Seq<char>
    decreases items.len(),
{
    if items.len() == 0 {
        Seq::empty()
    } else if items.len() == 1 {
        items[0]
    } else {
        join(items.drop_last(), sep) + sep + items.last()
    }
}

/// Each string as serde_json writes it.
pub open spec fn quote_all(items: Seq<Seq<char>>) -> Seq<Seq<char>> {
    items.map_values(|s: Seq<char>| json_str_of(s))
}

/// A JSON array whose elements are the given texts, already encoded.
pub open spec fn array_text(elems: Seq<Seq<char>>, pretty: bool) -> Seq<char> {
    if !pretty {
        "["@ + join(elems, ","@) + "]"@
    } else if elems.len() == 0 {
        "[]"@
    } else {
        "[\n"@ + join(elems.map_values(|e: Seq<char>| "    "@ + e), ",\n"@) + "\n  ]"@
    }
}

/// One member of the object: key and encoded value.
pub open spec fn member_text(key: Seq<char>, value: Seq<char>, pretty: bool) -> Seq<char> {
    if pretty {
        "  "@ + quoted(key) + ": "@ + value
    } else {
        quoted(key) + ":"@ + value
    }
}

/// The members of a request object, in wire order, given the encoded
/// elements of its lists.
pub open spec fn members(
    op: Opcode,
    space: Space,
    flags: Option<Seq<Seq<char>>>,
    ops: Option<Seq<Seq<char>>>,
    pretty: bool,
) -> Seq<Seq<char>> {
    let head = seq![
        member_text("Opcode"@, quoted(opcode_name(op)), pretty),
        member_text("Space"@, quoted(space_name(space)), pretty),
    ];
    let with_flags = match flags {
        Some(f) => head.push(member_text("Flags"@, array_text(f, pretty), pretty)),
        None => head,
    };
    match ops {
        Some(o) => with_flags.push(member_text("Operands"@, array_text(o, pretty), pretty)),
        None => with_flags,
    }
}

/// The whole object, given the encoded elements of its lists.
pub open spec fn layout(
    op: Opcode,
    space: Space,
    flags: Option<Seq<Seq<char>>>,
    ops: Option<Seq<Seq<char>>>,
    pretty: bool,
) -> Seq<char> {
    let ms = members(op, space, flags, ops, pretty);
    if pretty {
        "{\n"@ + join(ms, ",\n"@) + "\n}"@
    } else {
        "{"@ + join(ms, ","@) + "}"@
    }
}

pub open spec fn strings_view(v: Vec<String>) -> Seq<Seq<char>> {
    v@.map_values(|s: String| s@)
}

pub open spec fn opt_strings_view(v: Option<Vec<String>>) -> Option<Seq<Seq<char>>> {
    match v {
        Some(v) => Some(strings_view(v)),
        None => None,
    }
}

pub open spec fn opt_quote_all(v: Option<Seq<Seq<char>>>) -> Option<Seq<Seq<char>>> {
    match v {
        Some(v) => Some(quote_all(v)),
        None => None,
    }
}

/// The JSON text of a request with the given contents.
pub open spec fn request_json(
    op: Opcode,
    space: Space,
    flags: Option<Seq<Seq<char>>>,
    ops: Option<Seq<Seq<char>>>,
    pretty: bool,
) -> Seq<char> {
    layout(op, space, opt_quote_all(flags), opt_quote_all(ops), pretty)
}

/// `items` joined with `sep`, appended to `out`.
fn push_joined(out: &mut String, items: &Vec<String>, sep: &str)
    ensures
        final(out)@ == old(out)@ + join(strings_view(*items), sep@),
{
    let ghost start = out@;
    let ghost all = strings_view(*items);
    let mut i: usize = 0;
    while i < items.len()
        invariant
            i <= items@.len(),
            all == strings_view(*items),
            out@ == start + join(all.take(i as int), sep@),
        decreases items@.len() - i,
    {
        proof {
            let t = all.take(i as int + 1);
            assert(t.drop_last() =~= all.take(i as int));
            assert(t.last() == items@[i as int]@);
        }
        if i > 0 {
            out.append(sep);
        }
        out.append(items[i].as_str());
        proof {
            let t = all.take(i as int + 1);
            if i == 0 {
                assert(all.take(0) =~= Seq::<Seq<char>>::empty());
            }
            assert(out@ =~= start + join(t, sep@));
        }
        i = i + 1;
    }
    assert(all.take(i as int) =~= all);
}

/// A JSON array holding the given element texts, already encoded.
fn array(elems: &Vec<String>, pretty: bool) -> (r: String)
    ensures
        r@ == array_text(strings_view(*elems), pretty),
{
    if !pretty {
        let mut out = String::from_str("[");
        push_joined(&mut out, elems, ",");
        out.append("]");
        out
    } else if elems.len() == 0 {
        String::from_str("[]")
    } else {
        let ghost want = strings_view(*elems).map_values(|e: Seq<char>| "    "@ + e);
        let mut indented: Vec<String> = Vec::new();
        let mut i: usize = 0;
        while i < elems.len()
            invariant
                i <= elems@.len(),
                want == strings_view(*elems).map_values(|e: Seq<char>| "    "@ + e),
                strings_view(indented) =~= want.take(i as int),
            decreases elems@.len() - i,
        {
            let line = String::from_str("    ").concat(elems[i].as_str());
            indented.push(line);
            proof {
                assert(want.take(i as int + 1) =~= want.take(i as int).push(want[i as int]));
                assert(strings_view(indented) =~= want.take(i as int + 1));
            }
            i = i + 1;
        }
        assert(want.take(i as int) =~= want);
        let mut out = String::from_str("[\n");
        push_joined(&mut out, &indented, ",\n");
        out.append("\n  ]");
        out
    }
}

/// One object member: key and encoded value.
fn member(key: &str, value: &str, pretty: bool) -> (r: String)
    ensures
        r@ == member_text(key@, value@, pretty),
{
    let mut out = if pretty {
        String::from_str("  ")
    } else {
        String::new()
    };
    out.append("\"");
    out.append(key);
    out.append("\"");
    if pretty {
        out.append(": ");
    } else {
        out.append(":");
    }
    out.append(value);
    assert(out@ =~= member_text(key@, value@, pretty));
    out
}

fn opcode_text(op: Opcode) -> (r: &'static str)
    ensures
        r@ == opcode_name(op),
{
    match op {
        Opcode::Attach => "Attach",
        Opcode::DeviceList => "DeviceList",
        Opcode::GetAddress => "GetAddress",
        Opcode::Info => "Info",
        Opcode::List => "List",
        Opcode::PutFile => "PutFile",
        Opcode::Remove => "Remove",
    }
}

fn space_text(space: Space) -> (r: &'static str)
    ensures
        r@ == space_name(space),
{
    match space {
        Space::Snes => "SNES",
    }
}

fn quoted_text(s: &str) -> (r: String)
    ensures
        r@ == quoted(s@),
{
    let mut out = String::from_str("\"");
    out.append(s);
    out.append("\"");
    out
}

/// Lays out a request object whose list elements are already encoded JSON
/// strings (as [`quote_list`] yields them).
pub fn assemble(
    op: Opcode,
    space: Space,
    flags: &Option<Vec<String>>,
    ops: &Option<Vec<String>>,
    pretty: bool,
) -> (r: String)
    ensures
        r@ == layout(op, space, opt_strings_view(*flags), opt_strings_view(*ops), pretty),
{
    let mut ms: Vec<String> = Vec::new();
    let op_q = quoted_text(opcode_text(op));
    ms.push(member("Opcode", op_q.as_str(), pretty));
    let space_q = quoted_text(space_text(space));
    ms.push(member("Space", space_q.as_str(), pretty));
    let ghost head = strings_view(ms);
    match flags {
        Some(f) => {
            let a = array(f, pretty);
            ms.push(member("Flags", a.as_str(), pretty));
        },
        None => {},
    }
    match ops {
        Some(o) => {
            let a = array(o, pretty);
            ms.push(member("Operands", a.as_str(), pretty));
        },
        None => {},
    }
    assert(strings_view(ms) =~= members(op, space, opt_strings_view(*flags), opt_strings_view(*ops), pretty));
    let mut out = if pretty {
        String::from_str("{\n")
    } else {
        String::from_str("{")
    };
    if pretty {
        push_joined(&mut out, &ms, ",\n");
        out.append("\n}");
    } else {
        push_joined(&mut out, &ms, ",");
        out.append("}");
    }
    out
}

/// Each string of `items` as a JSON string literal.
pub fn quote_list(items: &Vec<String>) -> (r: Result<Vec<String>, EncodingError>)
    ensures
        r is Ok,
        r matches Ok(q) ==> strings_view(q) == quote_all(strings_view(*items)),
{
    let ghost want = quote_all(strings_view(*items));
    let mut out: Vec<String> = Vec::new();
    let mut i: usize = 0;
    while i < items.len()
        invariant
            i <= items@.len(),
            want == quote_all(strings_view(*items)),
            strings_view(out) =~= want.take(i as int),
        decreases items@.len() - i,
    {
        match json_quote(items[i].as_str()) {
            Ok(q) => {
                out.push(q);
                proof {
                    assert(want.take(i as int + 1) =~= want.take(i as int).push(want[i as int]));
                    assert(strings_view(out) =~= want.take(i as int + 1));
                }
            },
            Err(_) => return Err(EncodingError),
        }
        i = i + 1;
    }
    assert(want.take(i as int) =~= want);
    Ok(out)
}

fn quote_opt(items: &Option<Vec<String>>) -> (r: Result<Option<Vec<String>>, EncodingError>)
    ensures
        r is Ok,
        r matches Ok(q) ==> opt_strings_view(q) == opt_quote_all(opt_strings_view(*items)),
{
    match items {
        Some(v) => match quote_list(v) {
            Ok(q) => Ok(Some(q)),
            Err(e) => Err(e),
        },
        None => Ok(None),
    }
}

impl Request {
    /// A request with no flags.
    pub fn new(opcode: Opcode, ops: Option<Vec<String>>) -> (r: Request)
        ensures
            r.opcode == opcode,
            r.space == Space::Snes,
            r.flags is None,
            r.ops == ops,
    {
        Request { opcode, space: Space::Snes, flags: None, ops }
    }

    pub open spec fn spec_json(&self, pretty: bool) -> Seq<char> {
        request_json(self.opcode, self.space, opt_strings_view(self.flags), opt_strings_view(self.ops), pretty)
    }

    fn encode(&self, pretty: bool) -> (r: Result<String, EncodingError>)
        ensures
            r is Ok,
            r matches Ok(t) ==> t@ == self.spec_json(pretty),
    {
        let flags = match quote_opt(&self.flags) {
            Ok(f) => f,
            Err(e) => return Err(e),
        };
        let ops = match quote_opt(&self.ops) {
            Ok(o) => o,
            Err(e) => return Err(e),
        };
        Ok(assemble(self.opcode, self.space, &flags, &ops, pretty))
    }

    /// Single-line JSON, the form sent on the wire.
    pub fn to_json(&self) -> (r: Result<String, EncodingError>)
        ensures
            r is Ok,
            r matches Ok(t) ==> t@ == self.spec_json(false),
    {
        self.encode(false)
    }

    /// Indented JSON (two spaces per level), for display.
    pub fn to_json_pretty(&self) -> (r: Result<String, EncodingError>)
        ensures
            r is Ok,
            r matches Ok(t) ==> t@ == self.spec_json(true),
    {
        self.encode(true)
    }
}

/// Text of the object member `"key":value` in the single-line form.
pub open spec fn compact_member(key: Seq<char>, value: Seq<char>) -> Seq<char> {
    quoted(key) + ":"@ + value
}

/// Without flags or operands the single-line object holds exactly `Opcode`
/// then `Space`: no `Flags` or `Operands` key is written.
pub proof fn lemma_absent_lists_omitted(op: Opcode, space: Space)
    ensures
        request_json(op, space, None, None, false) == "{"@ + (compact_member(
            "Opcode"@,
            quoted(opcode_name(op)),
        ) + ","@ + compact_member("Space"@, quoted(space_name(space)))) + "}"@,
{
    let m0 = member_text("Opcode"@, quoted(opcode_name(op)), false);
    let m1 = member_text("Space"@, quoted(space_name(space)), false);
    let two = members(op, space, None, None, false);
    assert(two == seq![m0, m1]);
    assert(two.drop_last() =~= seq![m0]);
    assert(join(seq![m0], ","@) == m0);
    assert(join(two, ","@) == m0 + ","@ + m1);
}

/// With operands and no flags, the single-line object holds `Opcode`,
/// `Space` and then `Operands`, whose array lists the encoded operands in
/// order; no `Flags` key is written.
pub proof fn lemma_operands_follow_space(op: Opcode, space: Space, ops: Seq<Seq<char>>)
    ensures
        request_json(op, space, None, Some(ops), false) == "{"@ + (compact_member(
            "Opcode"@,
            quoted(opcode_name(op)),
        ) + ","@ + compact_member("Space"@, quoted(space_name(space))) + ","@ + compact_member(
            "Operands"@,
            "["@ + join(quote_all(ops), ","@) + "]"@,
        )) + "}"@,
{
    let m0 = member_text("Opcode"@, quoted(opcode_name(op)), false);
    let m1 = member_text("Space"@, quoted(space_name(space)), false);
    let m2 = member_text("Operands"@, array_text(quote_all(ops), false), false);
    let three = members(op, space, None, Some(quote_all(ops)), false);
    assert(three == seq![m0, m1].push(m2));
    assert(three.drop_last() =~= seq![m0, m1]);
    assert(join(seq![m0, m1], ","@) == m0 + ","@ + m1) by {
        assert(seq![m0, m1].drop_last() =~= seq![m0]);
        assert(join(seq![m0], ","@) == m0);
    }
    assert(join(three, ","@) == m0 + ","@ + m1 + ","@ + m2);
}

} // verus!
