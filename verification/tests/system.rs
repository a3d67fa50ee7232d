use rust_mux::output::{
    flush_stdout_blocking, write_stdout_blocking, FlushEvent, FlushStep, WriteEvent, WriteStep,
};
use rust_mux::sys::{set_nonblocking, shell_path};

#[test]
fn nothing_to_write_is_finished_at_once() {
    assert_eq!(write_stdout_blocking(b"", WriteEvent::Started), WriteStep::Finished);
}

#[test]
fn a_short_write_leaves_the_rest() {
    let data: &[u8] = b"hello";
    assert_eq!(write_stdout_blocking(data, WriteEvent::Started), WriteStep::Write(b"hello"));
    assert_eq!(write_stdout_blocking(data, WriteEvent::Wrote(2)), WriteStep::Write(b"llo"));
    assert_eq!(write_stdout_blocking(b"llo", WriteEvent::Wrote(3)), WriteStep::Finished);
}

#[test]
fn a_write_that_takes_nothing_gives_up() {
    assert_eq!(write_stdout_blocking(b"x", WriteEvent::Wrote(0)), WriteStep::WriteZero);
}

#[test]
fn blocked_and_interrupted_writes_are_tried_again() {
    assert_eq!(
        write_stdout_blocking(b"ab", WriteEvent::WouldBlock),
        WriteStep::YieldThenWrite(b"ab")
    );
    assert_eq!(write_stdout_blocking(b"ab", WriteEvent::Interrupted), WriteStep::Write(b"ab"));
    assert_eq!(write_stdout_blocking(b"ab", WriteEvent::Failed), WriteStep::Fail);
}

#[test]
fn every_byte_is_written_once_and_in_order() {
    let data: Vec<u8> = (0u8..=200).collect();
    let mut taken: Vec<u8> = Vec::new();
    let mut step = write_stdout_blocking(&data, WriteEvent::Started);
    let mut round = 0;
    loop {
        round += 1;
        step = match step {
            WriteStep::Finished => break,
            WriteStep::Write(rest) | WriteStep::YieldThenWrite(rest) => {
                if round % 3 == 0 {
                    write_stdout_blocking(rest, WriteEvent::WouldBlock)
                } else {
                    let n = rest.len().min(7);
                    taken.extend_from_slice(&rest[..n]);
                    write_stdout_blocking(rest, WriteEvent::Wrote(n))
                }
            }
            WriteStep::WriteZero | WriteStep::Fail => panic!("gave up"),
        };
    }
    assert_eq!(taken, data);
}

#[test]
fn flushes() {
    assert_eq!(flush_stdout_blocking(FlushEvent::Flushed), FlushStep::Finished);
    assert_eq!(flush_stdout_blocking(FlushEvent::WouldBlock), FlushStep::YieldThenFlush);
    assert_eq!(flush_stdout_blocking(FlushEvent::Interrupted), FlushStep::Flush);
    assert_eq!(flush_stdout_blocking(FlushEvent::Failed), FlushStep::Fail);
}

#[test]
fn the_shell_is_what_the_environment_names() {
    assert_eq!(shell_path(Some("/usr/bin/zsh".to_string())), "/usr/bin/zsh");
    assert_eq!(shell_path(Some(String::new())), "");
    assert_eq!(shell_path(None), "/bin/sh");
    assert_eq!(shell_path(Some("/bin/\0zsh".to_string())), "/bin/sh");
}

#[test]
fn a_descriptor_becomes_non_blocking() {
    let named = nix::fcntl::OFlag::all().bits();
    let nonblock = nix::fcntl::OFlag::O_NONBLOCK.bits();
    let append = nix::fcntl::OFlag::O_APPEND.bits();
    let read_write = nix::fcntl::OFlag::O_RDWR.bits();
    assert_eq!(set_nonblocking(0, named, nonblock), nonblock);
    let all = set_nonblocking(append | read_write, named, nonblock);
    assert_eq!(all, append | read_write | nonblock);
    assert_eq!(set_nonblocking(all, named, nonblock), all);
}

#[test]
fn flags_are_kept_as_the_system_names_them() {
    for flags in [0, 1, 2, 0o2001, 0o4002, 0o100000, -1, i32::MIN, i32::MAX] {
        let mut expected = nix::fcntl::OFlag::from_bits_truncate(flags);
        expected.insert(nix::fcntl::OFlag::O_NONBLOCK);
        let all = set_nonblocking(
            flags,
            nix::fcntl::OFlag::all().bits(),
            nix::fcntl::OFlag::O_NONBLOCK.bits(),
        );
        assert_eq!(all, expected.bits());
    }
}

#[test]
fn flags_without_a_name_are_dropped() {
    assert_eq!(set_nonblocking(0b1101, 0b0110, 0b1000), 0b1100);
    assert_eq!(set_nonblocking(0b1001, 0b0110, 0b1000), 0b1000);
}
