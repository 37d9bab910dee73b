//! The messages of the exchange with the forked child, as they go over the socket: a tag and a value,
//! four bytes each, the lowest first. Async-signal-safe: nothing here allocates.

use vstd::prelude::*;

use crate::containment::cgroup::abandon::{Handle, Incoming};

verus! {

/// How many bytes a message has.
pub const MESSAGE_LEN: usize = 8;

/// The child's pid, with a pidfd of the child.
pub const TAG_PIDFD: i32 = 1;

/// The child's pid, with the child's own `/proc` directory.
pub const TAG_PROC_DIR: i32 = 2;

/// The child's pid, with no handle on it.
pub const TAG_NO_HANDLE: i32 = 3;

/// What came of the child's placement.
pub const TAG_REPORT: i32 = 4;

/// The parent decided without the child's word: it may go on.
pub const TAG_PROCEED: i32 = 5;

/// The byte of `word` that is `shift` bits up.
pub open spec fn byte_of(word: u32, shift: u32) -> u8 {
    ((word >> shift) & 0xff) as u8
}

/// The word of the four bytes, the lowest first.
pub open spec fn word_of(b0: u8, b1: u8, b2: u8, b3: u8) -> u32 {
    (b0 as u32) | ((b1 as u32) << 8) | ((b2 as u32) << 16) | ((b3 as u32) << 24)
}

/// The bytes of a message.
pub open spec fn message_bytes(tag: i32, value: i32) -> Seq<u8> {
    let t = tag as u32;
    let v = value as u32;
    seq![
        byte_of(t, 0),
        byte_of(t, 8),
        byte_of(t, 16),
        byte_of(t, 24),
        byte_of(v, 0),
        byte_of(v, 8),
        byte_of(v, 16),
        byte_of(v, 24),
    ]
}

/// The tag and the value of a message's bytes.
pub open spec fn message_parts(bytes: Seq<u8>) -> (i32, i32) {
    (
        word_of(bytes[0], bytes[1], bytes[2], bytes[3]) as i32,
        word_of(bytes[4], bytes[5], bytes[6], bytes[7]) as i32,
    )
}

/// The bytes of a message.
pub fn encode(tag: i32, value: i32) -> (bytes: [u8; 8])
    ensures
        bytes@ == message_bytes(tag, value),
{
    let t: u32 = tag as u32;
    let v: u32 = value as u32;
    let bytes: [u8; 8] = [
        ((t >> 0) & 0xff) as u8,
        ((t >> 8) & 0xff) as u8,
        ((t >> 16) & 0xff) as u8,
        ((t >> 24) & 0xff) as u8,
        ((v >> 0) & 0xff) as u8,
        ((v >> 8) & 0xff) as u8,
        ((v >> 16) & 0xff) as u8,
        ((v >> 24) & 0xff) as u8,
    ];
    assert(bytes@ =~= message_bytes(tag, value));
    bytes
}

/// The tag and the value of a message's bytes.
pub fn decode(bytes: &[u8; 8]) -> (m: (i32, i32))
    ensures
        m == message_parts(bytes@),
{
    let t: u32 = (bytes[0] as u32) | ((bytes[1] as u32) << 8) | ((bytes[2] as u32) << 16) | ((
    bytes[3] as u32) << 24);
    let v: u32 = (bytes[4] as u32) | ((bytes[5] as u32) << 8) | ((bytes[6] as u32) << 16) | ((
    bytes[7] as u32) << 24);
    (t as i32, v as i32)
}

/// Whether a tag says that the child may go on.
pub fn says_proceed(tag: i32) -> (r: bool)
    ensures
        r == (tag == TAG_PROCEED),
{
    tag == TAG_PROCEED
}

/// The tag of an intent that carries `handle`.
pub open spec fn spec_intent_tag(handle: Option<Handle>) -> i32 {
    match handle {
        Some(Handle::Pidfd) => TAG_PIDFD,
        Some(Handle::ProcDir) => TAG_PROC_DIR,
        None => TAG_NO_HANDLE,
    }
}

/// The tag of an intent that carries `handle`.
pub fn intent_tag(handle: Option<Handle>) -> (tag: i32)
    ensures
        tag == spec_intent_tag(handle),
{
    match handle {
        Some(Handle::Pidfd) => TAG_PIDFD,
        Some(Handle::ProcDir) => TAG_PROC_DIR,
        None => TAG_NO_HANDLE,
    }
}

/// The message of the child's that `tag` and `value` make, and whether a descriptor came along. A handle
/// that the tag speaks of and that did not arrive is no handle. `None` for a tag that no child sends,
/// and for an intent without a positive pid.
pub open spec fn spec_incoming(tag: i32, value: i32, has_handle: bool) -> Option<Incoming> {
    if tag == TAG_REPORT {
        Some(Incoming::Report(value))
    } else if value <= 0 {
        None
    } else if tag == TAG_PIDFD {
        Some(
            Incoming::Intent {
                pid: value as u32,
                handle: if has_handle {
                    Some(Handle::Pidfd)
                } else {
                    None
                },
            },
        )
    } else if tag == TAG_PROC_DIR {
        Some(
            Incoming::Intent {
                pid: value as u32,
                handle: if has_handle {
                    Some(Handle::ProcDir)
                } else {
                    None
                },
            },
        )
    } else if tag == TAG_NO_HANDLE {
        Some(Incoming::Intent { pid: value as u32, handle: None })
    } else {
        None
    }
}

/// The message of the child's that `tag` and `value` make. See [`spec_incoming`].
pub fn incoming_of(tag: i32, value: i32, has_handle: bool) -> (m: Option<Incoming>)
    ensures
        m == spec_incoming(tag, value, has_handle),
{
    if tag == TAG_REPORT {
        return Some(Incoming::Report(value));
    }
    if value <= 0 {
        return None;
    }
    let pid: u32 = value as u32;
    if tag == TAG_PIDFD {
        let handle = if has_handle {
            Some(Handle::Pidfd)
        } else {
            None
        };
        Some(Incoming::Intent { pid, handle })
    } else if tag == TAG_PROC_DIR {
        let handle = if has_handle {
            Some(Handle::ProcDir)
        } else {
            None
        };
        Some(Incoming::Intent { pid, handle })
    } else if tag == TAG_NO_HANDLE {
        Some(Incoming::Intent { pid, handle: None })
    } else {
        None
    }
}

/// A message reads back as what was sent.
pub proof fn law_a_message_reads_back(tag: i32, value: i32)
    ensures
        message_parts(message_bytes(tag, value)) == (tag, value),
        message_bytes(tag, value).len() == MESSAGE_LEN,
{
    lemma_word(tag as u32);
    lemma_word(value as u32);
    assert((tag as u32) as i32 == tag) by (bit_vector);
    assert((value as u32) as i32 == value) by (bit_vector);
}

proof fn lemma_word(word: u32)
    ensures
        word_of(byte_of(word, 0), byte_of(word, 8), byte_of(word, 16), byte_of(word, 24)) == word,
{
    assert(((((word >> 0) & 0xff) as u8) as u32) | (((((word >> 8) & 0xff) as u8) as u32) << 8) | (((((word
        >> 16) & 0xff) as u8) as u32) << 16) | (((((word >> 24) & 0xff) as u8) as u32) << 24)
        == word) by (bit_vector);
}

/// An intent that a child with the positive pid `pid` sends is the one that arrives, with its handle if
/// that came along; and a report arrives as the report that was sent.
pub proof fn law_what_the_child_sends_arrives(pid: i32, handle: Option<Handle>, report: i32)
    requires
        pid > 0,
    ensures
        spec_incoming(spec_intent_tag(handle), pid, handle is Some) == Some(
            Incoming::Intent { pid: pid as u32, handle },
        ),
        spec_incoming(TAG_REPORT, report, false) == Some(Incoming::Report(report)),
        spec_incoming(TAG_PROCEED, report, false) is None,
{
}

/// The number that four bytes write, the lowest first.
pub open spec fn written(b0: u8, b1: u8, b2: u8, b3: u8) -> nat {
    (b0 + 0x100 * b1 + 0x1_0000 * b2 + 0x100_0000 * b3) as nat
}

/// The two's complement of `value` in 32 bits.
pub open spec fn complement(value: i32) -> nat {
    if value < 0 {
        (value + 0x1_0000_0000) as nat
    } else {
        value as nat
    }
}

/// A message is its tag and then its value, four bytes each, the lowest of each first, a negative one
/// as its two's complement.
pub proof fn law_the_lowest_byte_comes_first(tag: i32, value: i32)
    ensures
        ({
            let bytes = message_bytes(tag, value);
            &&& bytes.len() == 8
            &&& written(bytes[0], bytes[1], bytes[2], bytes[3]) == complement(tag)
            &&& written(bytes[4], bytes[5], bytes[6], bytes[7]) == complement(value)
        }),
{
    lemma_written(tag);
    lemma_written(value);
}

proof fn lemma_written(value: i32)
    ensures
        ({
            let word = value as u32;
            written(byte_of(word, 0), byte_of(word, 8), byte_of(word, 16), byte_of(word, 24))
                == complement(value)
        }),
{
    let word = value as u32;
    let b0 = byte_of(word, 0);
    let b1 = byte_of(word, 8);
    let b2 = byte_of(word, 16);
    let b3 = byte_of(word, 24);
    assert(b0 + 0x100 * b1 + 0x1_0000 * b2 + 0x100_0000 * b3 == word) by (bit_vector)
        requires
            b0 == ((word >> 0) & 0xff) as u8,
            b1 == ((word >> 8) & 0xff) as u8,
            b2 == ((word >> 16) & 0xff) as u8,
            b3 == ((word >> 24) & 0xff) as u8,
    ;
    assert(value >= 0 ==> word == value) by (bit_vector)
        requires
            word == value as u32,
    ;
    assert(value < 0 ==> word == value + 0x1_0000_0000) by (bit_vector)
        requires
            word == value as u32,
    ;
}

/// What is read of a message, whoever sent it. A report is any value under its own tag. An intent has
/// one of its three tags and a positive pid, and is of that pid; it carries a handle exactly where its
/// tag speaks of one and a descriptor came along, of the kind that the tag says. Nothing else is read as
/// a message.
pub proof fn law_what_is_read_of_a_message(tag: i32, value: i32, has_handle: bool)
    ensures
        ({
            let read = spec_incoming(tag, value, has_handle);
            &&& read == Some(Incoming::Report(value)) <==> tag == 4
            &&& (read matches Some(Incoming::Intent { .. })) <==> 1 <= tag <= 3 && value > 0
            &&& read matches Some(Incoming::Intent { pid, handle }) ==> {
                &&& pid == value
                &&& handle == Some(Handle::Pidfd) <==> tag == 1 && has_handle
                &&& handle == Some(Handle::ProcDir) <==> tag == 2 && has_handle
                &&& handle is None <==> tag == 3 || !has_handle
            }
            &&& read matches Some(Incoming::Report(report)) ==> report == value
        }),
{
}

/// Two intents with different handles have different tags, and none of them is a report's or the
/// parent's word to go on.
pub proof fn law_each_tag_says_one_thing(a: Option<Handle>, b: Option<Handle>)
    ensures
        spec_intent_tag(a) == spec_intent_tag(b) ==> a == b,
        spec_intent_tag(a) != TAG_REPORT && spec_intent_tag(a) != TAG_PROCEED,
        TAG_REPORT != TAG_PROCEED,
        1 <= spec_intent_tag(a) <= 3,
{
}

} // verus!
