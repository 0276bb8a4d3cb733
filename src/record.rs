//! The wire format of a log record

use vstd::prelude::*;

use vstd::string::StringSliceAdditionalSpecFns;

use crate::level::{level_label, Level};

verus! {

/// The bytes of one record: `[{LEVEL} {target}]: {message}\r\n`.
pub open spec fn record_bytes(level: Level, target: Seq<u8>, message: Seq<u8>) -> Seq<u8> {
    // '['
    seq![0x5bu8] + level_label(level)
    // ' '
     + seq![0x20u8] + target
    // "]: "
     + seq![0x5du8, 0x3au8, 0x20u8] + message
    // "\r\n"
     + seq![0x0du8, 0x0au8]
}

fn append(out: &mut Vec<u8>, bytes: &[u8])
    ensures
        final(out)@ == old(out)@ + bytes@,
{
    let mut i: usize = 0;
    while i < bytes.len()
        invariant
            i <= bytes@.len(),
            out@ == old(out)@ + bytes@.take(i as int),
        decreases bytes@.len() - i,
    {
        out.push(bytes[i]);
        assert(bytes@.take(i + 1) =~= bytes@.take(i as int).push(bytes@[i as int]));
        i = i + 1;
    }
    assert(bytes@.take(bytes@.len() as int) =~= bytes@);
}

/// Serializes a record: `[{LEVEL} {target}]: {message}\r\n`, with the target
/// and the message in UTF-8 and nothing escaped.
pub fn format_record(level: Level, target: &str, message: &str) -> (r: Vec<u8>)
    ensures
        r@ == record_bytes(level, target.spec_bytes(), message.spec_bytes()),
{
    let mut out: Vec<u8> = Vec::new();
    out.push(0x5bu8);
    append(&mut out, level.label());
    out.push(0x20u8);
    append(&mut out, target.as_bytes());
    out.push(0x5du8);
    out.push(0x3au8);
    out.push(0x20u8);
    append(&mut out, message.as_bytes());
    out.push(0x0du8);
    out.push(0x0au8);
    assert(out@ =~= record_bytes(level, target.spec_bytes(), message.spec_bytes()));
    out
}

} // verus!
