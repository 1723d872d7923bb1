use kernel::bootstrap::{round_message, BootstrapState, EchoState, ProgramAction, LAST_ROUND};
use kernel::syscall::ipc::Message;
use kernel::syscall::number::Syscall;
use kernel::syscall::SyscallError;

#[test]
fn round_messages_are_numbered() {
    assert_eq!(round_message(1), Message::from_str("send 1 to echo"));
    assert_eq!(round_message(6), Message::from_str("send 6 to echo"));
    assert_eq!(round_message(42), Message::from_str("send 42 to echo"));
    let mut buf = [0u8; 32];
    assert_eq!(round_message(7).to_string(&mut buf).trim_matches(char::from(0)), "send 7 to echo");
}

fn echo_words(m: Message) -> [usize; 6] {
    let d = m.into_words();
    [9, d[0], d[1], d[2], d[3], 0]
}

#[test]
fn initial_program_runs_six_rounds_then_halts() {
    let (mut state, mut action) = BootstrapState::start(0x4000);
    assert_eq!(action, ProgramAction::Call(Syscall::Spawn { entry: 0x4000, arg: 0 }));
    (state, action) = state.step(Ok([5, 0, 0, 0, 0, 0]));
    assert_eq!(action, ProgramAction::Call(Syscall::CreateEndpoint));
    (state, action) = state.step(Ok([7, 0, 0, 0, 0, 0]));
    assert_eq!(action, ProgramAction::Call(Syscall::DeriveCap { cap: 7, mask: 1 }));
    (state, action) = state.step(Ok([8, 0, 0, 0, 0, 0]));
    assert_eq!(action, ProgramAction::Call(Syscall::MoveCap { process: 5, cap: 8 }));
    (state, action) = state.step(Ok([0; 6]));
    let mut sent = 0;
    loop {
        let message = match action {
            ProgramAction::Call(Syscall::Send { endpoint, message }) => {
                assert_eq!(endpoint, 7);
                message
            }
            ProgramAction::Halt => break,
            other => panic!("unexpected action {other:?}"),
        };
        sent += 1;
        assert_eq!(message, round_message(sent));
        // The receiver is not waiting the first time: the program yields.
        if sent == 1 {
            (state, action) = state.step(Ok([0; 6]));
            assert_eq!(action, ProgramAction::Call(Syscall::Yield));
            (state, action) = state.step(Ok([0; 6]));
        } else {
            (state, action) = state.step(Ok([1, 0, 0, 0, 0, 0]));
        }
        assert_eq!(action, ProgramAction::Call(Syscall::Recv { endpoint: 7 }));
        (state, action) = state.step(Ok(echo_words(message)));
    }
    assert_eq!(sent, LAST_ROUND);
    assert_eq!(state, BootstrapState::Done);
}

#[test]
fn initial_program_fails_on_a_wrong_echo_or_error() {
    let state = BootstrapState::Receiving { send_ep: 7, round: 2 };
    let (s, a) = state.step(Ok(echo_words(round_message(3))));
    assert_eq!((s, a), (BootstrapState::Failed, ProgramAction::Panic));
    let (s, a) = state.step(Err(SyscallError::NoCap));
    assert_eq!((s, a), (BootstrapState::Failed, ProgramAction::Panic));
    let sending = BootstrapState::Sending { send_ep: 7, round: 2 };
    assert_eq!(sending.step(Ok([2, 0, 0, 0, 0, 0])).1, ProgramAction::Panic);
}

#[test]
fn echo_answers_with_the_same_message() {
    let (state, action) = EchoState::start(3);
    assert_eq!(action, ProgramAction::Call(Syscall::Recv { endpoint: 3 }));
    let (state, action) = state.step(Ok([11, 1, 2, 3, 4, 0]));
    assert_eq!(
        action,
        ProgramAction::Call(Syscall::Reply { endpoint: 11, message: Message::from_words([1, 2, 3, 4]) })
    );
    let (state, action) = state.step(Ok([0; 6]));
    assert_eq!(action, ProgramAction::Call(Syscall::Recv { endpoint: 3 }));
    let (state, action) = state.step(Err(SyscallError::Unknown));
    assert_eq!((state, action), (EchoState::Failed, ProgramAction::Panic));
}
