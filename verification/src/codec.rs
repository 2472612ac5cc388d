//! The packet codec: serializes an [`ActionPacket`] to its canonical wire
//! text, a flattened JSON object with the command tag first under `"cmd"`
//! and the parameters as sibling fields in insertion order.

use vstd::prelude::*;

use crate::number::spec_int_text;
use crate::text::{push_chars, string_of};
use crate::value::{ActionPacket, PacketModel, SpecParams, SpecValue, Value};

verus! {

/// The lowercase hexadecimal digit for a value below sixteen.
pub open spec fn hex_digit(n: nat) -> char {
    if n == 0 {
        '0'
    } else if n == 1 {
        '1'
    } else if n == 2 {
        '2'
    } else if n == 3 {
        '3'
    } else if n == 4 {
        '4'
    } else if n == 5 {
        '5'
    } else if n == 6 {
        '6'
    } else if n == 7 {
        '7'
    } else if n == 8 {
        '8'
    } else if n == 9 {
        '9'
    } else if n == 10 {
        'a'
    } else if n == 11 {
        'b'
    } else if n == 12 {
        'c'
    } else if n == 13 {
        'd'
    } else if n == 14 {
        'e'
    } else {
        'f'
    }
}

/// How one character appears inside a JSON string: quotes and backslashes
/// get a backslash escape, control characters a short or `\u00..` escape,
/// and everything else stands as itself.
pub open spec fn escape_char(c: char) -> Seq<char> {
    let u = c as u32;
    if c == '"' {
        seq!['\\', '"']
    } else if c == '\\' {
        seq!['\\', '\\']
    } else if u == 0x8 {
        seq!['\\', 'b']
    } else if u == 0x9 {
        seq!['\\', 't']
    } else if u == 0xA {
        seq!['\\', 'n']
    } else if u == 0xC {
        seq!['\\', 'f']
    } else if u == 0xD {
        seq!['\\', 'r']
    } else if u < 0x20 {
        seq!['\\', 'u', '0', '0', hex_digit((u / 16) as nat), hex_digit((u % 16) as nat)]
    } else {
        seq![c]
    }
}

/// The body of a JSON string: each character escaped.
pub open spec fn escape_text(s: Seq<char>) -> Seq<char>
    decreases s.len(),
{
    if s.len() == 0 {
        Seq::empty()
    } else {
        escape_text(s.drop_last()) + escape_char(s.last())
    }
}

/// The JSON text of one parameter value.
pub open spec fn value_json(v: SpecValue) -> Seq<char> {
    match v {
        SpecValue::Int(i) => spec_int_text(i),
        SpecValue::Float(t) => t,
        SpecValue::Text(t) => seq!['"'] + escape_text(t) + seq!['"'],
    }
}

/// The JSON text of one parameter entry, with its leading comma.
pub open spec fn entry_json(e: (Seq<char>, SpecValue)) -> Seq<char> {
    seq![',', '"'] + escape_text(e.0) + seq!['"', ':'] + value_json(e.1)
}

/// The JSON text of all parameter entries, in insertion order.
pub open spec fn entries_json(s: SpecParams) -> Seq<char>
    decreases s.len(),
{
    if s.len() == 0 {
        Seq::empty()
    } else {
        entries_json(s.drop_last()) + entry_json(s.last())
    }
}

/// The canonical wire text of a packet.
pub open spec fn packet_json(p: PacketModel) -> Seq<char> {
    seq!['{', '"', 'c', 'm', 'd', '"', ':', '"'] + escape_text(p.command) + seq!['"']
        + entries_json(p.params) + seq!['}']
}

pub(crate) fn hex_digit_exec(u: u32) -> (c: char)
    requires
        u < 16,
    ensures
        c == hex_digit(u as nat),
{
    if u == 0 {
        '0'
    } else if u == 1 {
        '1'
    } else if u == 2 {
        '2'
    } else if u == 3 {
        '3'
    } else if u == 4 {
        '4'
    } else if u == 5 {
        '5'
    } else if u == 6 {
        '6'
    } else if u == 7 {
        '7'
    } else if u == 8 {
        '8'
    } else if u == 9 {
        '9'
    } else if u == 10 {
        'a'
    } else if u == 11 {
        'b'
    } else if u == 12 {
        'c'
    } else if u == 13 {
        'd'
    } else if u == 14 {
        'e'
    } else {
        'f'
    }
}

/// Appends the escaped form of `s` to `out`.
fn push_escaped(out: &mut Vec<char>, s: &[char])
    ensures
        final(out)@ == old(out)@ + escape_text(s@),
{
    let mut i: usize = 0;
    while i < s.len()
        invariant
            i <= s@.len(),
            out@ == old(out)@ + escape_text(s@.subrange(0, i as int)),
        decreases s@.len() - i,
    {
        let c = s[i];
        let u = c as u32;
        if c == '"' {
            out.push('\\');
            out.push('"');
        } else if c == '\\' {
            out.push('\\');
            out.push('\\');
        } else if u == 0x8 {
            out.push('\\');
            out.push('b');
        } else if u == 0x9 {
            out.push('\\');
            out.push('t');
        } else if u == 0xA {
            out.push('\\');
            out.push('n');
        } else if u == 0xC {
            out.push('\\');
            out.push('f');
        } else if u == 0xD {
            out.push('\\');
            out.push('r');
        } else if u < 0x20 {
            out.push('\\');
            out.push('u');
            out.push('0');
            out.push('0');
            out.push(hex_digit_exec(u / 16));
            out.push(hex_digit_exec(u % 16));
        } else {
            out.push(c);
        }
        i = i + 1;
        proof {
            let t = s@.subrange(0, i as int);
            assert(t.drop_last() == s@.subrange(0, i - 1));
            assert(t.last() == s@[i - 1]);
            assert(out@ =~= old(out)@ + (escape_text(s@.subrange(0, i - 1)) + escape_char(
                s@[i - 1],
            )));
        }
    }
    proof {
        assert(s@.subrange(0, s@.len() as int) == s@);
    }
}

/// Appends the JSON text of one value to `out`.
fn push_value(out: &mut Vec<char>, v: &Value)
    ensures
        final(out)@ == old(out)@ + value_json(v@),
{
    match v {
        Value::Int(i) => {
            let digits = crate::number::fmt_i64(*i);
            push_chars(out, digits.as_slice());
        },
        Value::Float(t) => {
            let cs = crate::text::chars_of(t.as_str());
            push_chars(out, cs.as_slice());
        },
        Value::Text(t) => {
            let cs = crate::text::chars_of(t.as_str());
            out.push('"');
            push_escaped(out, cs.as_slice());
            out.push('"');
            proof {
                assert(out@ =~= old(out)@ + (seq!['"'] + escape_text(t@) + seq!['"']));
            }
        },
    }
}

/// Serializes a packet to its canonical wire text.  The output is a pure
/// function of the packet, so encoding the same packet twice yields
/// identical text.
pub fn encode(p: &ActionPacket) -> (r: String)
    ensures
        r@ == packet_json(p@),
{
    let mut out: Vec<char> = Vec::new();
    out.push('{');
    out.push('"');
    out.push('c');
    out.push('m');
    out.push('d');
    out.push('"');
    out.push(':');
    out.push('"');
    proof {
        assert(out@ =~= seq!['{', '"', 'c', 'm', 'd', '"', ':', '"']);
    }
    let cmd = crate::text::chars_of(p.command.as_str());
    push_escaped(&mut out, cmd.as_slice());
    out.push('"');
    let ghost head = seq!['{', '"', 'c', 'm', 'd', '"', ':', '"'] + escape_text(p@.command) + seq![
        '"',
    ];
    proof {
        assert(out@ =~= head);
    }
    let n = p.params.len();
    let mut i: usize = 0;
    while i < n
        invariant
            i <= n == p@.params.len(),
            head == seq!['{', '"', 'c', 'm', 'd', '"', ':', '"'] + escape_text(p@.command) + seq![
                '"',
            ],
            out@ == head + entries_json(p@.params.subrange(0, i as int)),
        decreases n - i,
    {
        let e = p.params.entry_at(i);
        out.push(',');
        out.push('"');
        let kc = crate::text::chars_of(e.0.as_str());
        push_escaped(&mut out, kc.as_slice());
        out.push('"');
        out.push(':');
        push_value(&mut out, &e.1);
        i = i + 1;
        proof {
            let t = p@.params.subrange(0, i as int);
            assert(t.drop_last() == p@.params.subrange(0, i - 1));
            assert(t.last() == p@.params[i - 1]);
            assert(out@ =~= head + (entries_json(p@.params.subrange(0, i - 1)) + entry_json(
                p@.params[i - 1],
            )));
        }
    }
    out.push('}');
    proof {
        assert(p@.params.subrange(0, p@.params.len() as int) == p@.params);
        assert(out@ =~= packet_json(p@));
    }
    string_of(&out)
}

/// Encoding is deterministic: packets with equal models have equal wire
/// text, so encoding the same packet twice yields byte-identical output.
pub proof fn lemma_encode_deterministic(p: PacketModel, q: PacketModel)
    requires
        p.command == q.command,
        p.params == q.params,
    ensures
        packet_json(p) == packet_json(q),
{
}

} // verus!
