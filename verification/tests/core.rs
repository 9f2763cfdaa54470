use tinylibc::errno::{die, try_io, ErrorState, EINTR, EINVAL, EIO, EOF};
use tinylibc::mem::{low_byte_of, memset};
use tinylibc::number::{format_signed, format_unsigned};
use tinylibc::startup::{entry, Boot, Halt, NO_STACK};
use tinylibc::write::{write_all, write_all_begin, WriteOutcome, WriteStep};

/// Runs one write-all of `len` bytes against scripted outcomes and tells how it
/// ended and how many calls it made.
fn write_all_against(len: usize, outcomes: &[WriteOutcome]) -> (WriteStep, usize) {
    let mut step = write_all_begin(len);
    let mut calls = 0;
    while let WriteStep::Write(at) = step {
        if calls == outcomes.len() {
            break;
        }
        step = write_all(len, at, outcomes[calls]);
        calls += 1;
    }
    (step, calls)
}

#[test]
fn write_all_retries_interrupted_calls() {
    let outcomes =
        [WriteOutcome::Failed(EINTR), WriteOutcome::Failed(EINTR), WriteOutcome::Wrote(11)];
    assert_eq!(write_all_against(11, &outcomes), (WriteStep::Done(11), 3));
}

#[test]
fn write_all_of_nothing_makes_no_call() {
    assert_eq!(write_all_begin(0), WriteStep::Done(0));
    assert_eq!(write_all_against(0, &[WriteOutcome::Failed(5)]), (WriteStep::Done(0), 0));
}

#[test]
fn write_all_starts_at_the_front() {
    assert_eq!(write_all_begin(1), WriteStep::Write(0));
    assert_eq!(write_all_begin(usize::MAX), WriteStep::Write(0));
}

#[test]
fn write_all_advances_by_what_was_taken() {
    assert_eq!(write_all(10, 0, WriteOutcome::Wrote(4)), WriteStep::Write(4));
    assert_eq!(write_all(10, 4, WriteOutcome::Wrote(5)), WriteStep::Write(9));
    assert_eq!(write_all(10, 9, WriteOutcome::Wrote(1)), WriteStep::Done(10));
    let outcomes = [WriteOutcome::Wrote(1); 7];
    assert_eq!(write_all_against(7, &outcomes), (WriteStep::Done(7), 7));
    assert_eq!(write_all_against(8, &outcomes), (WriteStep::Write(7), 7));
}

#[test]
fn write_all_fails_on_a_call_that_takes_nothing() {
    assert_eq!(write_all(10, 3, WriteOutcome::Wrote(0)), WriteStep::Failed(EIO));
    assert_eq!(EIO, xenia::Errno::IO.raw_os_error());
}

#[test]
fn write_all_hands_other_failures_on() {
    assert_eq!(write_all(10, 3, WriteOutcome::Failed(32)), WriteStep::Failed(32));
    assert_eq!(write_all(10, 3, WriteOutcome::Failed(EIO)), WriteStep::Failed(EIO));
    assert_eq!(write_all(10, 3, WriteOutcome::Failed(EINTR)), WriteStep::Write(3));
    assert_eq!(EINTR, xenia::Errno::INTR.raw_os_error());
    let outcomes = [WriteOutcome::Wrote(2), WriteOutcome::Failed(9), WriteOutcome::Wrote(8)];
    assert_eq!(write_all_against(10, &outcomes), (WriteStep::Failed(9), 2));
}

#[test]
fn memset_zeroes_the_range() {
    for n in [0usize, 1, 5, 64] {
        let mut buf = vec![0xaau8; 64];
        let same = memset(&mut buf, 0, n);
        assert_eq!(same.len(), 64);
        let at = same.as_ptr();
        assert_eq!(at, buf.as_ptr());
        assert!(buf[..n].iter().all(|byte| *byte == 0));
        assert!(buf[n..].iter().all(|byte| *byte == 0xaa));
    }
}

#[test]
fn memset_hands_the_destination_back() {
    let mut buf = vec![1u8, 2, 3];
    let same = memset(&mut buf, 7, 2);
    same[2] = 9;
    assert_eq!(buf, vec![7, 7, 9]);
    let mut empty: Vec<u8> = Vec::new();
    assert!(memset(&mut empty, 1, 0).is_empty());
}

#[test]
fn memset_keeps_the_low_byte() {
    let mut buf = vec![0u8; 2];
    memset(&mut buf, 0x1234, 2);
    assert_eq!(buf, vec![0x34, 0x34]);
    memset(&mut buf, -1, 1);
    assert_eq!(buf, vec![0xff, 0x34]);
    for value in [0, 1, 255, 256, 257, -1, -255, -256, -257, i32::MAX, i32::MIN] {
        assert_eq!(low_byte_of(value), value as u8);
    }
}

#[test]
fn error_state_starts_at_zero() {
    assert_eq!(ErrorState::new().get(), 0);
}

#[test]
fn error_state_keeps_what_is_stored() {
    let mut errno = ErrorState::new();
    errno.set(EINVAL);
    assert_eq!(errno.get(), 22);
    errno.set(-3);
    assert_eq!(errno.get(), -3);
    *errno.location() = 17;
    assert_eq!(errno.get(), 17);
    assert_eq!(*errno.location(), 17);
}

#[test]
fn error_state_of_another_thread_is_untouched() {
    let mut mine = ErrorState::new();
    let mut other = ErrorState::new();
    other.set(5);
    let checked: Result<u8, i32> = die(None, &mut mine);
    assert_eq!(checked, Err(EOF));
    assert_eq!(*mine.location(), EINVAL);
    assert_eq!(other.get(), 5);
}

#[test]
fn die_hands_a_present_argument_on() {
    let mut errno = ErrorState::new();
    errno.set(3);
    assert_eq!(die(Some(8u8), &mut errno), Ok(8));
    assert_eq!(errno.get(), 3);
    assert_eq!(die::<u8>(None, &mut errno), Err(EOF));
    assert_eq!(errno.get(), EINVAL);
    assert_eq!(EINVAL, xenia::Errno::INVAL.raw_os_error());
}

#[test]
fn try_io_stores_the_code_of_a_failure() {
    let mut errno = ErrorState::new();
    assert_eq!(try_io(Ok(12), &mut errno), Ok(12));
    assert_eq!(errno.get(), 0);
    assert_eq!(try_io(Err(32), &mut errno), Err(EOF));
    assert_eq!(errno.get(), 32);
    assert_eq!(try_io(Ok(0), &mut errno), Ok(0));
    assert_eq!(errno.get(), 32);
}

#[test]
fn integers_in_decimal() {
    assert_eq!(format_signed(0), b"0".to_vec());
    assert_eq!(format_signed(7), b"7".to_vec());
    assert_eq!(format_signed(-7), b"-7".to_vec());
    assert_eq!(format_signed(1000), b"1000".to_vec());
    assert_eq!(format_signed(i32::MAX), b"2147483647".to_vec());
    assert_eq!(format_signed(i32::MIN), b"-2147483648".to_vec());
    assert_eq!(format_unsigned(0), b"0".to_vec());
    assert_eq!(format_unsigned(u32::MAX), b"4294967295".to_vec());
    assert_eq!(format_unsigned(2147483648), b"2147483648".to_vec());
}

#[test]
fn bootstrap_without_stack_exits() {
    assert_eq!(entry(None), Boot::Halt(Halt::Exit(NO_STACK)));
    assert_eq!(NO_STACK, 1);
}

#[test]
fn bootstrap_decodes_the_stack() {
    assert_eq!(entry(Some(0)), Boot::Run { argc: 0, argv: 1, envp: 2 });
    assert_eq!(entry(Some(1)), Boot::Run { argc: 1, argv: 1, envp: 3 });
    assert_eq!(entry(Some(3)), Boot::Run { argc: 3, argv: 1, envp: 5 });
    assert_eq!(entry(Some(0x7fff_ffff)), Boot::Run { argc: i32::MAX, argv: 1, envp: 0x8000_0001 });
}

#[test]
fn bootstrap_reads_the_count_as_an_int() {
    assert_eq!(entry(Some(0xffff_ffff)), Boot::Run { argc: -1, argv: 1, envp: 1 });
    assert_eq!(entry(Some(0x8000_0000)), Boot::Run { argc: i32::MIN, argv: 1, envp: -2147483646 });
    let word: u64 = 0x0000_0005_0000_0002;
    assert_eq!(entry(Some(word as usize)), Boot::Run { argc: 2, argv: 1, envp: 4 });
}

#[test]
fn a_panic_aborts() {
    assert_eq!(tinylibc::startup::panic(), Halt::Abort);
}
