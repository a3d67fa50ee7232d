//! Looking for a byte string, and the byte strings that are looked for.
use vstd::prelude::*;
use vstd::utf8::{encode_utf8, is_ascii_chars_encode_utf8};

verus! {

/// The escape sequence that turns bracketed paste on.
pub open spec fn paste_on() -> Seq<u8> {
    encode_utf8("\x1b[?2004h"@)
}

/// The escape sequence that turns bracketed paste off.
pub open spec fn paste_off() -> Seq<u8> {
    encode_utf8("\x1b[?2004l"@)
}

/// `needle` stands in `hay` at `at`.
pub open spec fn occurs_at(hay: Seq<u8>, needle: Seq<u8>, at: int) -> bool {
    &&& 0 <= at
    &&& at + needle.len() <= hay.len()
    &&& hay.subrange(at, at + needle.len()) == needle
}

/// `needle` stands somewhere in `hay`.
pub open spec fn occurs(hay: Seq<u8>, needle: Seq<u8>) -> bool {
    exists|at: int| occurs_at(hay, needle, at)
}

/// Whether bracketed paste is on after a piece of output, when it was `before`. The sequence
/// that turns it on is looked for first.
pub open spec fn paste_after(before: bool, output: Seq<u8>) -> bool {
    if occurs(output, paste_on()) {
        true
    } else if occurs(output, paste_off()) {
        false
    } else {
        before
    }
}

/// Whether `needle` stands in `hay` at `at`.
fn matches_at(hay: &[u8], needle: &[u8], at: usize) -> (found: bool)
    requires
        at + needle@.len() <= hay@.len(),
    ensures
        found == occurs_at(hay@, needle@, at as int),
{
    let end: usize = hay.len();
    let mut i: usize = 0;
    while i < needle.len()
        invariant
            i <= needle@.len(),
            end == hay@.len(),
            at + needle@.len() <= end,
            forall|j: int| 0 <= j < i ==> #[trigger] needle@[j] == hay@[at + j],
        decreases needle@.len() - i,
    {
        if hay[at + i] != needle[i] {
            assert(hay@.subrange(at as int, at + needle@.len())[i as int] != needle@[i as int]);
            return false;
        }
        i += 1;
    }
    assert(hay@.subrange(at as int, at + needle@.len()) =~= needle@);
    true
}

/// Whether `needle` stands somewhere in `hay`.
pub fn contains_bytes(hay: &[u8], needle: &[u8]) -> (found: bool)
    ensures
        found == occurs(hay@, needle@),
{
    if needle.len() > hay.len() {
        return false;
    }
    let last: usize = hay.len() - needle.len();
    let mut at: usize = 0;
    loop
        invariant
            at <= last,
            last + needle@.len() == hay@.len(),
            forall|a: int| 0 <= a < at ==> !occurs_at(hay@, needle@, a),
        decreases last - at,
    {
        if matches_at(hay, needle, at) {
            return true;
        }
        if at == last {
            return false;
        }
        at += 1;
    }
}

/// Whether bracketed paste is on after a piece of output, when it was `before`.
pub fn scan_paste_mode(before: bool, output: &[u8]) -> (on: bool)
    ensures
        on == paste_after(before, output@),
{
    if contains_bytes(output, "\x1b[?2004h".as_bytes()) {
        true
    } else if contains_bytes(output, "\x1b[?2004l".as_bytes()) {
        false
    } else {
        before
    }
}

/// The two escape sequences, byte for byte.
pub proof fn law_paste_sequences()
    ensures
        paste_on() == seq![0x1bu8, 0x5b, 0x3f, 0x32, 0x30, 0x30, 0x34, 0x68],
        paste_off() == seq![0x1bu8, 0x5b, 0x3f, 0x32, 0x30, 0x30, 0x34, 0x6c],
{
    reveal_strlit("\x1b[?2004h");
    reveal_strlit("\x1b[?2004l");
    is_ascii_chars_encode_utf8("\x1b[?2004h"@);
    is_ascii_chars_encode_utf8("\x1b[?2004l"@);
}

/// A byte string stands in another if and only if that is the first with something before it and
/// something behind it.
pub proof fn law_occurs_between(hay: Seq<u8>, needle: Seq<u8>)
    ensures
        occurs(hay, needle) <==> exists|before: Seq<u8>, behind: Seq<u8>| #[trigger]
            (before + needle + behind) == hay,
{
    if occurs(hay, needle) {
        let at = choose|at: int| occurs_at(hay, needle, at);
        let before = hay.take(at);
        let behind = hay.skip(at + needle.len());
        assert(before + needle + behind =~= hay);
    }
    if exists|before: Seq<u8>, behind: Seq<u8>| #[trigger] (before + needle + behind) == hay {
        let (before, behind) = choose|before: Seq<u8>, behind: Seq<u8>| #[trigger]
            (before + needle + behind) == hay;
        let at = before.len() as int;
        assert(hay.subrange(at, at + needle.len()) =~= needle);
        assert(occurs_at(hay, needle, at));
    }
}

/// Output that holds the sequence that turns bracketed paste on turns it on, whatever it was and
/// whatever else the output holds.
pub proof fn law_paste_on_wins(was: bool, before: Seq<u8>, behind: Seq<u8>)
    ensures
        paste_after(was, before + paste_on() + behind),
{
    law_occurs_between(before + paste_on() + behind, paste_on());
}

/// Output without the sequence that turns bracketed paste on never turns it on: it turns it off
/// if it holds the sequence for that, whatever it was, and leaves it as it was if not.
pub proof fn law_paste_off_or_as_it_was(was: bool, output: Seq<u8>)
    requires
        !occurs(output, paste_on()),
    ensures
        paste_after(was, output) <==> was && !occurs(output, paste_off()),
{
}

} // verus!
