//! What is decided about descriptors and programs, from plain values.
use vstd::prelude::*;
use vstd::string::StrSliceExecFns;

verus! {

/// The program that a window runs, when the environment names `shell`: that one, unless there
/// is none or its name holds a NUL character; then `/bin/sh`.
pub open spec fn shell_or_default(shell: Option<Seq<char>>) -> Seq<char> {
    match shell {
        Some(name) if !name.contains('\0') => name,
        _ => "/bin/sh"@,
    }
}

/// Whether a text holds a NUL character.
fn holds_nul(text: &str) -> (found: bool)
    ensures
        found == text@.contains('\0'),
{
    let count: usize = text.unicode_len();
    let mut i: usize = 0;
    while i < count
        invariant
            i <= count,
            count == text@.len(),
            forall|j: int| 0 <= j < i ==> text@[j] != '\0',
        decreases count - i,
    {
        if text.get_char(i) == '\0' {
            assert(text@[i as int] == '\0');
            return true;
        }
        i += 1;
    }
    false
}

/// The program that a window runs. `shell` is what the environment names, if it names a program
/// at all.
pub fn shell_path(shell: Option<String>) -> (path: String)
    ensures
        path@ == shell_or_default(
            match shell {
                Some(name) => Some(name@),
                None => None,
            },
        ),
{
    match shell {
        Some(name) => {
            if holds_nul(name.as_str()) {
                "/bin/sh".to_owned()
            } else {
                name
            }
        },
        None => "/bin/sh".to_owned(),
    }
}

/// A name that the environment gives is taken as it is, unless it holds a NUL character. Where it
/// does, and where no name is given, it is `/bin/sh`. Either way there is no NUL character in it.
pub proof fn law_named_shell_is_taken(name: Seq<char>)
    ensures
        !name.contains('\0') ==> shell_or_default(Some(name)) == name,
        name.contains('\0') ==> shell_or_default(Some(name)) == "/bin/sh"@,
        shell_or_default(None) == "/bin/sh"@,
        !shell_or_default(Some(name)).contains('\0'),
        !shell_or_default(None).contains('\0'),
{
    reveal_strlit("/bin/sh");
}

/// The status flags of a descriptor that is made non-blocking. `flags` are those that it has,
/// `named` are all that have a name on this system, and `nonblock` is the one that asks for
/// non-blocking.
pub open spec fn nonblocking_flags(flags: i32, named: i32, nonblock: i32) -> i32 {
    (flags & named) | nonblock
}

/// The status flags that make a descriptor non-blocking: of those that it has, the named ones are
/// kept, and the one that asks for non-blocking is set.
pub fn set_nonblocking(flags: i32, named: i32, nonblock: i32) -> (all: i32)
    ensures
        all == nonblocking_flags(flags, named, nonblock),
{
    let kept: i32 = flags & named;
    kept | nonblock
}

/// A descriptor that was made non-blocking keeps every named flag that it had and gets no other
/// than the one that asks for it; to do it again changes nothing.
pub proof fn law_nonblocking_keeps_flags(flags: i32, named: i32, nonblock: i32)
    ensures
        ({
            let all = nonblocking_flags(flags, named, nonblock);
            &&& all & (flags & named) == flags & named
            &&& all & nonblock == nonblock
            &&& all & !(flags | nonblock) == 0
            &&& all & !(named | nonblock) == 0
            &&& nonblocking_flags(all, named, nonblock) == all
        }),
{
    let all = nonblocking_flags(flags, named, nonblock);
    assert(all & (flags & named) == flags & named && all & nonblock == nonblock && all & !(flags
        | nonblock) == 0 && all & !(named | nonblock) == 0 && (all & named) | nonblock == all)
        by (bit_vector)
        requires
            all == (flags & named) | nonblock,
    ;
}

} // verus!
