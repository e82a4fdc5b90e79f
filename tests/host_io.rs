use cortex_m_semihosting::lazy::{Acquire, LazyStream};
use cortex_m_semihosting::streams::{
    get_stderr, get_stdout, open_request, open_streams, OpenRequest, StreamError, StreamKind,
    Streams, STDERR_MODE, STDOUT_MODE, TERMINAL_PATH, UNSET_HANDLE,
};
use cortex_m_semihosting::writer;
use cortex_m_semihosting::writer::{
    ewrite, ewrite_str, write_all, write_str, WriteCursor, WriteError,
};

const HELLO: &[u8] = b"Hello, world!\n";

/// A simulated host: answers OPEN from a list, in order, and counts the calls.
struct SimOpen {
    answers: Vec<isize>,
    calls: Vec<OpenRequest>,
}

impl SimOpen {
    fn new(answers: Vec<isize>) -> SimOpen {
        SimOpen { answers, calls: Vec::new() }
    }

    fn open(&mut self, req: OpenRequest) -> usize {
        let reply = self.answers[self.calls.len()];
        self.calls.push(req);
        reply as usize
    }
}

/// Drives a drain against a simulated host that answers WRITE from `replies`,
/// in order. Returns the outcome and the bytes offered by each WRITE.
fn drain(mut cursor: WriteCursor, replies: &[usize]) -> (Result<(), WriteError>, Vec<Vec<u8>>) {
    let mut offered = Vec::new();
    while let Some(bytes) = cursor.pending() {
        offered.push(bytes.to_vec());
        let reply = replies[offered.len() - 1];
        if let Err(e) = cursor.record_reply(reply) {
            return (Err(e), offered);
        }
    }
    (cursor.outcome().unwrap(), offered)
}

/// One acquisition in a critical section, against the simulated host.
fn acquire(stream: &mut LazyStream, host: &mut SimOpen) -> Result<isize, StreamError> {
    match stream.acquire() {
        Acquire::Open(req) => {
            let reply = host.open(req);
            stream.complete_open(reply)
        }
        Acquire::Ready(r) => r,
    }
}

#[test]
fn open_streams_stores_both_handles() {
    let mut host = SimOpen::new(vec![1, 2]);
    let out = host.open(open_request(StreamKind::Stdout));
    let err = host.open(open_request(StreamKind::Stderr));
    assert_eq!(host.calls[0], OpenRequest { path: ":tt", mode: 4 });
    assert_eq!(host.calls[1], OpenRequest { path: ":tt", mode: 8 });
    let (streams, r) = open_streams(out, err);
    assert_eq!(r, Ok(()));
    assert_eq!(get_stdout(&streams), 1);
    assert_eq!(get_stderr(&streams), 2);
}

#[test]
fn single_write_accepted_at_once() {
    let cursor = write_all(1, HELLO).unwrap();
    assert_eq!(cursor.fd(), 1);
    let (r, offered) = drain(cursor, &[0]);
    assert_eq!(r, Ok(()));
    assert_eq!(offered.len(), 1);
    assert_eq!(offered[0], HELLO.to_vec());
}

#[test]
fn short_write_resends_the_tail() {
    let cursor = write_all(1, HELLO).unwrap();
    let (r, offered) = drain(cursor, &[9, 0]);
    assert_eq!(r, Ok(()));
    assert_eq!(offered.len(), 2);
    assert_eq!(offered[0], HELLO.to_vec());
    assert_eq!(offered[1], HELLO[5..].to_vec());
    assert_eq!(&offered[1][..], b", world!\n");
}

#[test]
fn failed_stderr_open_is_stored() {
    let (streams, r) = open_streams(3, -1isize as usize);
    assert_eq!(r, Err(StreamError::OpenFailed));
    assert_eq!(get_stdout(&streams), 3);
    assert_eq!(get_stderr(&streams), -1);
}

#[test]
fn failed_stdout_open_is_reported() {
    let (streams, r) = open_streams(-1isize as usize, 2);
    assert_eq!(r, Err(StreamError::OpenFailed));
    assert_eq!(get_stdout(&streams), -1);
    assert_eq!(get_stderr(&streams), 2);
}

#[test]
fn zero_is_a_valid_handle() {
    let (streams, r) = open_streams(0, 0);
    assert_eq!(r, Ok(()));
    assert!(writer::write(&streams, HELLO).is_ok());
    assert!(ewrite(&streams, HELLO).is_ok());
}

#[test]
fn unopened_registry_refuses_writes() {
    let streams = Streams::new();
    assert_eq!(get_stdout(&streams), UNSET_HANDLE);
    assert_eq!(get_stderr(&streams), UNSET_HANDLE);
    assert_eq!(writer::write(&streams, HELLO).err(), Some(WriteError::InvalidHandle));
    assert_eq!(ewrite_str(&streams, "x").err(), Some(WriteError::InvalidHandle));
}

#[test]
fn lazy_open_happens_once() {
    for n in 1..6usize {
        let mut stream = LazyStream::new(StreamKind::Stdout);
        let mut host = SimOpen::new(vec![7, 8, 9, 10, 11, 12]);
        let mut seen = Vec::new();
        for _ in 0..n {
            seen.push(acquire(&mut stream, &mut host));
        }
        assert_eq!(host.calls.len(), 1);
        assert_eq!(host.calls[0], OpenRequest { path: TERMINAL_PATH, mode: STDOUT_MODE });
        assert!(seen.iter().all(|h| *h == Ok(7)));
        assert_eq!(stream.slot(), Some(7));
    }
}

#[test]
fn lazy_failed_open_is_not_retried() {
    let mut stream = LazyStream::new(StreamKind::Stderr);
    let mut host = SimOpen::new(vec![-1, 5]);
    assert_eq!(acquire(&mut stream, &mut host), Err(StreamError::OpenFailed));
    assert_eq!(acquire(&mut stream, &mut host), Err(StreamError::OpenFailed));
    assert_eq!(host.calls.len(), 1);
    assert_eq!(host.calls[0].mode, STDERR_MODE);
    assert_eq!(stream.slot(), Some(-1));
}

#[test]
fn lazy_stream_starts_unset() {
    let stream = LazyStream::new(StreamKind::Stdout);
    assert_eq!(stream.slot(), None);
    assert_eq!(
        stream.acquire(),
        Acquire::Open(OpenRequest { path: ":tt", mode: 4 })
    );
}

#[test]
fn several_short_writes_drain_everything() {
    let cursor = write_all(4, HELLO).unwrap();
    let (r, offered) = drain(cursor, &[13, 13, 6, 1, 0]);
    assert_eq!(r, Ok(()));
    assert_eq!(offered.len(), 5);
    let lens: Vec<usize> = offered.iter().map(|b| b.len()).collect();
    assert_eq!(lens, vec![14, 13, 13, 6, 1]);
    let accepted: usize = lens.iter().zip([13usize, 13, 6, 1, 0]).map(|(l, c)| l - c).sum();
    assert_eq!(accepted, HELLO.len());
    assert_eq!(offered[4], b"\n".to_vec());
}

#[test]
fn negative_handle_never_reaches_host() {
    assert_eq!(write_all(-1, HELLO).err(), Some(WriteError::InvalidHandle));
    assert_eq!(write_all(-1, b"").err(), Some(WriteError::InvalidHandle));
    assert_eq!(write_all(isize::MIN, HELLO).err(), Some(WriteError::InvalidHandle));
}

#[test]
fn oversized_reply_is_a_host_error() {
    let cursor = write_all(1, HELLO).unwrap();
    let (r, offered) = drain(cursor, &[15, 0]);
    assert_eq!(r, Err(WriteError::HostError));
    assert_eq!(offered.len(), 1);
}

#[test]
fn oversized_reply_after_short_write_halts() {
    let mut cursor = write_all(1, HELLO).unwrap();
    assert_eq!(cursor.record_reply(4), Ok(()));
    assert_eq!(cursor.pending().unwrap(), &HELLO[10..]);
    assert_eq!(cursor.record_reply(5), Err(WriteError::HostError));
    assert_eq!(cursor.pending(), None);
    assert_eq!(cursor.outcome(), Some(Err(WriteError::HostError)));
}

#[test]
fn reply_equal_to_offer_makes_no_progress() {
    let mut cursor = write_all(1, HELLO).unwrap();
    assert_eq!(cursor.record_reply(14), Ok(()));
    assert_eq!(cursor.pending().unwrap(), HELLO);
    assert_eq!(cursor.outcome(), None);
}

#[test]
fn empty_buffer_needs_no_write() {
    let cursor = write_all(1, b"").unwrap();
    assert_eq!(cursor.pending(), None);
    assert_eq!(cursor.outcome(), Some(Ok(())));
}

#[test]
fn string_writes_use_the_right_stream() {
    let (streams, _) = open_streams(1, 2);
    let out = write_str(&streams, "héllo").unwrap();
    assert_eq!(out.fd(), 1);
    assert_eq!(out.pending().unwrap(), "héllo".as_bytes());
    let err = ewrite_str(&streams, "oops").unwrap();
    assert_eq!(err.fd(), 2);
    assert_eq!(err.pending().unwrap(), b"oops");
}

#[test]
fn open_modes() {
    assert_eq!(open_request(StreamKind::Stdout).mode, 4);
    assert_eq!(open_request(StreamKind::Stderr).mode, 8);
    assert_eq!(open_request(StreamKind::Stderr).path, ":tt");
}
