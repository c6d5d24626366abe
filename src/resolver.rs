use vstd::prelude::*;
use crate::text::{ascii_text, push_ascii};

verus! {

/// The largest number of bytes a string descriptor can occupy.
pub const STRING_BUF_LEN: usize = 255;

/// A native string-descriptor lookup: the ASCII string at `index` of the
/// device behind `handle`, into a buffer of `max_len` bytes.
#[derive(Clone, Copy, Debug, PartialEq, Eq, Structural)]
pub struct StringRequest {
    pub handle: u64,
    pub index: u8,
    pub max_len: usize,
}

/// What the native string lookup answered: its result code (negative on
/// failure, otherwise the number of bytes written) and the buffer it filled.
#[derive(Clone, Debug)]
pub struct StringReply {
    pub code: i32,
    pub bytes: Vec<u8>,
}

/// How many leading bytes of a successful reply hold the string: the reported
/// length, capped by the buffer and by the largest descriptor size.
pub open spec fn reply_len(reply: StringReply) -> int {
    let n = reply.code as int;
    let cap = if reply.bytes@.len() < STRING_BUF_LEN { reply.bytes@.len() as int } else { STRING_BUF_LEN as int };
    if n < cap { n } else { cap }
}

/// The text a successful reply carries.
pub open spec fn reply_text(reply: StringReply) -> Seq<char> {
    ascii_text(reply.bytes@.subrange(0, reply_len(reply)))
}

/// The strict reading of a reply: the text, or the native error code.
pub open spec fn strict_text(reply: StringReply) -> Result<Seq<char>, i32> {
    if reply.code < 0 {
        Err(reply.code)
    } else {
        Ok(reply_text(reply))
    }
}

/// The checked reading of a string field: absent for index zero, for a
/// missing reply, and for a failed lookup.
pub open spec fn checked_text(descriptor_field: u8, reply: Option<StringReply>) -> Option<Seq<char>> {
    if descriptor_field == 0 {
        None
    } else {
        match reply {
            Some(rep) => if rep.code < 0 { None } else { Some(reply_text(rep)) },
            None => None,
        }
    }
}

/// The native lookup that resolving `descriptor_field` needs, if any.
pub open spec fn request_of(handle: u64, descriptor_field: u8) -> Option<StringRequest> {
    if descriptor_field == 0 {
        None
    } else {
        Some(StringRequest { handle, index: descriptor_field, max_len: STRING_BUF_LEN })
    }
}

/// Index zero resolves to "no value" whatever is known of the device, and
/// asks for no native lookup.
pub proof fn lemma_zero_index_no_value(handle: u64, reply: Option<StringReply>)
    ensures
        request_of(handle, 0) is None,
        checked_text(0, reply) is None,
{
}

/// The native lookup that resolving `descriptor_field` needs, if any.
/// Index zero means "field absent" and needs no lookup.
pub fn string_request(handle: u64, descriptor_field: u8) -> (r: Option<StringRequest>)
    ensures
        r == request_of(handle, descriptor_field),
{
    if descriptor_field == 0 {
        None
    } else {
        Some(StringRequest { handle, index: descriptor_field, max_len: STRING_BUF_LEN })
    }
}

/// Decodes the reply to a string-descriptor lookup, or returns its error code.
pub fn descriptor_to_string(reply: &StringReply) -> (r: Result<String, i32>)
    ensures
        r matches Err(c) ==> strict_text(*reply) == Err::<Seq<char>, i32>(c),
        r matches Ok(s) ==> strict_text(*reply) == Ok::<Seq<char>, i32>(s@),
{
    if reply.code < 0 {
        return Err(reply.code);
    }
    let avail: usize = if reply.bytes.len() < STRING_BUF_LEN { reply.bytes.len() } else { STRING_BUF_LEN };
    let len: usize = if (reply.code as usize) < avail { reply.code as usize } else { avail };
    let mut s = String::new();
    push_ascii(&mut s, &reply.bytes, len);
    assert(s@ =~= reply_text(*reply));
    Ok(s)
}

/// Resolves a string field: `None` for index zero (no lookup is made for it),
/// for a missing reply, and for a failed lookup.
pub fn descriptor_to_string_check(descriptor_field: u8, reply: &Option<StringReply>) -> (r: Option<String>)
    ensures
        r matches Some(s) ==> checked_text(descriptor_field, *reply) == Some(s@),
        r is None ==> checked_text(descriptor_field, *reply) is None,
{
    if descriptor_field == 0 {
        return None;
    }
    match reply {
        Some(rep) => match descriptor_to_string(rep) {
            Ok(s) => Some(s),
            Err(_) => None,
        },
        None => None,
    }
}

} // verus!
