//! The initial user program and its echo process, as decisions: from the
//! result of the last system call, the next call to make. The program
//! starts an echo process, hands it the read half of an endpoint, and sends
//! it six numbered messages, checking that each comes back unchanged.
use vstd::prelude::*;
use vstd::string::*;
use vstd::utf8::{partial_valid_utf8, partial_valid_utf8_extend_ascii_block, valid_utf8};

use crate::syscall::cap::{CapHandle, RIGHTS_READ};
use crate::syscall::ipc::{text_word, Message};
use crate::syscall::number::Syscall;
use crate::syscall::SyscallResult;
use crate::text::str_from_utf8;

verus! {

/// The round after which the program stops.
pub const LAST_ROUND: usize = 6;

/// The decimal digits of `n`, most significant first.
pub open spec fn digits(n: nat) -> Seq<u8>
    decreases n,
{
    if n < 10 {
        seq![(48 + n) as u8]
    } else {
        digits(n / 10).push((48 + n % 10) as u8)
    }
}

/// The text sent in round `round`: "send ", the round in decimal, " to echo".
pub open spec fn round_text(round: nat) -> Seq<u8> {
    seq![0x73u8, 0x65u8, 0x6eu8, 0x64u8, 0x20u8] + digits(round) + seq![
        0x20u8,
        0x74u8,
        0x6fu8,
        0x20u8,
        0x65u8,
        0x63u8,
        0x68u8,
        0x6fu8,
    ]
}

/// The message whose words hold `text`, as `Message::from_str` builds it.
pub open spec fn text_message(text: Seq<u8>, m: Message) -> bool {
    forall|k: int| 0 <= k < 4 ==> #[trigger] m.data@[k] == text_word(text, k) as usize
}

proof fn lemma_digits(n: nat)
    ensures
        1 <= digits(n).len(),
        forall|k: int| 0 <= k < digits(n).len() ==> 48 <= #[trigger] digits(n)[k] <= 57,
        n < 10 ==> digits(n).len() == 1,
    decreases n,
{
    if n >= 10 {
        lemma_digits(n / 10);
    }
}

fn decimal_digits(n: usize) -> (r: Vec<u8>)
    ensures
        r@ == digits(n as nat),
    decreases n,
{
    if n < 10 {
        let mut v: Vec<u8> = Vec::new();
        v.push(48 + n as u8);
        assert(v@ =~= digits(n as nat));
        v
    } else {
        let mut v = decimal_digits(n / 10);
        v.push(48 + (n % 10) as u8);
        v
    }
}

/// The message sent in round `round`: the words of `round_text(round)`.
/// The text must fit in a message.
pub fn round_message(round: usize) -> (r: Message)
    requires
        round_text(round as nat).len() <= 32,
    ensures
        text_message(round_text(round as nat), r),
{
    let mut text: Vec<u8> = Vec::new();
    text.push(0x73);
    text.push(0x65);
    text.push(0x6e);
    text.push(0x64);
    text.push(0x20);
    let d = decimal_digits(round);
    let mut i: usize = 0;
    let ghost prefix = text@;
    while i < d.len()
        invariant
            i <= d@.len(),
            prefix.len() == 5,
            text@ == prefix + d@.subrange(0, i as int),
        decreases d@.len() - i,
    {
        text.push(d[i]);
        i = i + 1;
        assert(text@ =~= prefix + d@.subrange(0, i as int));
    }
    text.push(0x20);
    text.push(0x74);
    text.push(0x6f);
    text.push(0x20);
    text.push(0x65);
    text.push(0x63);
    text.push(0x68);
    text.push(0x6f);
    proof {
        assert(d@.subrange(0, d@.len() as int) =~= d@);
        assert(text@ =~= round_text(round as nat));
        lemma_digits(round as nat);
        let t = text@;
        assert forall|k: int| 0 <= k < t.len() implies #[trigger] vstd::utf8::is_leading_byte_width_1(t[k]) by {
            if 5 <= k < 5 + d@.len() {
                assert(t[k] == digits(round as nat)[k - 5]);
            }
        }
        assert(t.subrange(0, 0) =~= Seq::<u8>::empty());
        assert(partial_valid_utf8(t, 0));
        partial_valid_utf8_extend_ascii_block(t, 0, t.len() as int);
        assert(t.subrange(0, t.len() as int) =~= t);
    }
    match str_from_utf8(text.as_slice()) {
        Some(s) => Message::from_str(s),
        None => vstd::pervasive::unreached(),
    }
}

/// Where the initial program stands: which call it waits on, with what it
/// has learnt so far.
#[derive(Debug, Clone, Copy, PartialEq, Eq)]
pub enum BootstrapState {
    /// Waiting for the echo process to start.
    Spawning,
    /// Waiting for the endpoint, with the echo process's capability.
    CreatingEndpoint { echo: CapHandle },
    /// Waiting for the read-only copy of the endpoint.
    Deriving { echo: CapHandle, send_ep: CapHandle },
    /// Waiting for the copy to move to the echo process.
    Moving { send_ep: CapHandle },
    /// Waiting for the message of `round` to be sent.
    Sending { send_ep: CapHandle, round: usize },
    /// Waiting to get the processor back after the receiver was not ready.
    Yielding { send_ep: CapHandle, round: usize },
    /// Waiting for the echo of the message of `round`.
    Receiving { send_ep: CapHandle, round: usize },
    /// All rounds came back.
    Done,
    /// A call failed or an echo differed.
    Failed,
}

/// What a program does next.
#[derive(Debug, Clone, Copy, PartialEq, Eq)]
pub enum ProgramAction {
    /// Make this system call and report its result.
    Call(Syscall),
    /// Stop for good.
    Halt,
    /// Stop with an error: a call failed or a check did not hold.
    Panic,
}

/// The call that sends the message of `round` through `ep`.
pub open spec fn send_round(ep: CapHandle, round: usize, m: Message) -> bool {
    text_message(round_text(round as nat), m)
}

/// The state and action that follow `state` when its call returned `result`.
pub open spec fn bootstrap_next(
    state: BootstrapState,
    result: SyscallResult<[usize; 6]>,
    next: BootstrapState,
    action: ProgramAction,
) -> bool {
    match result {
        Err(_) => next == BootstrapState::Failed && action == ProgramAction::Panic,
        Ok(w) => match state {
            BootstrapState::Spawning => {
                &&& next == (BootstrapState::CreatingEndpoint { echo: w[0] })
                &&& action == ProgramAction::Call(Syscall::CreateEndpoint)
            },
            BootstrapState::CreatingEndpoint { echo } => {
                &&& next == (BootstrapState::Deriving { echo, send_ep: w[0] })
                &&& action == ProgramAction::Call(
                    Syscall::DeriveCap { cap: w[0], mask: RIGHTS_READ as usize },
                )
            },
            BootstrapState::Deriving { echo, send_ep } => {
                &&& next == (BootstrapState::Moving { send_ep })
                &&& action == ProgramAction::Call(Syscall::MoveCap { process: echo, cap: w[0] })
            },
            BootstrapState::Moving { send_ep } => {
                &&& next == (BootstrapState::Sending { send_ep, round: 1 })
                &&& action matches ProgramAction::Call(Syscall::Send { endpoint, message })
                    && endpoint == send_ep && send_round(send_ep, 1, message)
            },
            BootstrapState::Sending { send_ep, round } => if w[0] == 0 {
                &&& next == (BootstrapState::Yielding { send_ep, round })
                &&& action == ProgramAction::Call(Syscall::Yield)
            } else if w[0] == 1 {
                &&& next == (BootstrapState::Receiving { send_ep, round })
                &&& action == ProgramAction::Call(Syscall::Recv { endpoint: send_ep })
            } else {
                next == BootstrapState::Failed && action == ProgramAction::Panic
            },
            BootstrapState::Yielding { send_ep, round } => {
                &&& next == (BootstrapState::Receiving { send_ep, round })
                &&& action == ProgramAction::Call(Syscall::Recv { endpoint: send_ep })
            },
            BootstrapState::Receiving { send_ep, round } => {
                let echoed = round_text(round as nat).len() <= 32 && forall|k: int|
                    0 <= k < 4 ==> w[k + 1] == text_word(round_text(round as nat), k) as usize;
                if !echoed {
                    next == BootstrapState::Failed && action == ProgramAction::Panic
                } else if round >= LAST_ROUND {
                    next == BootstrapState::Done && action == ProgramAction::Halt
                } else {
                    &&& next == (BootstrapState::Sending { send_ep, round: (round + 1) as usize })
                    &&& action matches ProgramAction::Call(Syscall::Send { endpoint, message })
                        && endpoint == send_ep && send_round(send_ep, (round + 1) as usize, message)
                }
            },
            BootstrapState::Done => next == BootstrapState::Done && action == ProgramAction::Halt,
            BootstrapState::Failed => next == BootstrapState::Failed && action
                == ProgramAction::Panic,
        },
    }
}

/// The rounds of every state of the initial program lie between 1 and the
/// last round.
pub open spec fn rounds_in_range(state: BootstrapState) -> bool {
    match state {
        BootstrapState::Sending { round, .. } => 1 <= round <= LAST_ROUND,
        BootstrapState::Yielding { round, .. } => 1 <= round <= LAST_ROUND,
        BootstrapState::Receiving { round, .. } => 1 <= round <= LAST_ROUND,
        _ => true,
    }
}

proof fn lemma_round_text_fits(round: nat)
    requires
        1 <= round <= LAST_ROUND,
    ensures
        round_text(round).len() <= 32,
{
    lemma_digits(round);
}

impl BootstrapState {
    /// The first call of the program: start the echo process at
    /// `echo_entry` with argument 0.
    pub fn start(echo_entry: usize) -> (r: (BootstrapState, ProgramAction))
        ensures
            r.0 == BootstrapState::Spawning,
            r.1 == ProgramAction::Call(Syscall::Spawn { entry: echo_entry, arg: 0 }),
    {
        (BootstrapState::Spawning, ProgramAction::Call(Syscall::Spawn { entry: echo_entry, arg: 0 }))
    }

    /// The state and action that follow this one when its call returned
    /// `result`. Every call must succeed; a send reports in its first word
    /// whether the receiver was waiting (1) or not (0), and each echo must
    /// hold the message of its round.
    pub fn step(self, result: SyscallResult<[usize; 6]>) -> (r: (BootstrapState, ProgramAction))
        requires
            rounds_in_range(self),
        ensures
            bootstrap_next(self, result, r.0, r.1),
            rounds_in_range(r.0),
    {
        let w = match result {
            Ok(w) => w,
            Err(_) => return (BootstrapState::Failed, ProgramAction::Panic),
        };
        match self {
            BootstrapState::Spawning => (
                BootstrapState::CreatingEndpoint { echo: w[0] },
                ProgramAction::Call(Syscall::CreateEndpoint),
            ),
            BootstrapState::CreatingEndpoint { echo } => (
                BootstrapState::Deriving { echo, send_ep: w[0] },
                ProgramAction::Call(Syscall::DeriveCap { cap: w[0], mask: RIGHTS_READ as usize }),
            ),
            BootstrapState::Deriving { echo, send_ep } => (
                BootstrapState::Moving { send_ep },
                ProgramAction::Call(Syscall::MoveCap { process: echo, cap: w[0] }),
            ),
            BootstrapState::Moving { send_ep } => {
                proof {
                    lemma_round_text_fits(1);
                }
                let message = round_message(1);
                (
                    BootstrapState::Sending { send_ep, round: 1 },
                    ProgramAction::Call(Syscall::Send { endpoint: send_ep, message }),
                )
            },
            BootstrapState::Sending { send_ep, round } => {
                if w[0] == 0 {
                    (BootstrapState::Yielding { send_ep, round }, ProgramAction::Call(Syscall::Yield))
                } else if w[0] == 1 {
                    (
                        BootstrapState::Receiving { send_ep, round },
                        ProgramAction::Call(Syscall::Recv { endpoint: send_ep }),
                    )
                } else {
                    (BootstrapState::Failed, ProgramAction::Panic)
                }
            },
            BootstrapState::Yielding { send_ep, round } => (
                BootstrapState::Receiving { send_ep, round },
                ProgramAction::Call(Syscall::Recv { endpoint: send_ep }),
            ),
            BootstrapState::Receiving { send_ep, round } => {
                proof {
                    lemma_round_text_fits(round as nat);
                }
                let sent = round_message(round);
                let echoed = w[1] == sent.data[0] && w[2] == sent.data[1] && w[3] == sent.data[2]
                    && w[4] == sent.data[3];
                if !echoed {
                    (BootstrapState::Failed, ProgramAction::Panic)
                } else if round >= LAST_ROUND {
                    (BootstrapState::Done, ProgramAction::Halt)
                } else {
                    proof {
                        lemma_round_text_fits((round + 1) as nat);
                    }
                    let message = round_message(round + 1);
                    (
                        BootstrapState::Sending { send_ep, round: round + 1 },
                        ProgramAction::Call(Syscall::Send { endpoint: send_ep, message }),
                    )
                }
            },
            BootstrapState::Done => (BootstrapState::Done, ProgramAction::Halt),
            BootstrapState::Failed => (BootstrapState::Failed, ProgramAction::Panic),
        }
    }
}

/// Where the echo process stands.
#[derive(Debug, Clone, Copy, PartialEq, Eq)]
pub enum EchoState {
    /// Waiting for a message on endpoint `ep`.
    Receiving { ep: CapHandle },
    /// Waiting for the answer to go out.
    Replying { ep: CapHandle },
    /// A call failed.
    Failed,
}

impl EchoState {
    /// The first call of the echo process: receive on `ep`.
    pub fn start(ep: CapHandle) -> (r: (EchoState, ProgramAction))
        ensures
            r.0 == (EchoState::Receiving { ep }),
            r.1 == ProgramAction::Call(Syscall::Recv { endpoint: ep }),
    {
        (EchoState::Receiving { ep }, ProgramAction::Call(Syscall::Recv { endpoint: ep }))
    }

    /// After a receive, answer through the reply endpoint in the first word
    /// with the message in the next four; after the answer, receive again.
    /// Every call must succeed.
    pub fn step(self, result: SyscallResult<[usize; 6]>) -> (r: (EchoState, ProgramAction))
        ensures
            result is Err ==> r == (EchoState::Failed, ProgramAction::Panic),
            result matches Ok(w) ==> match self {
                EchoState::Receiving { ep } => {
                    &&& r.0 == (EchoState::Replying { ep })
                    &&& r.1 matches ProgramAction::Call(Syscall::Reply { endpoint, message })
                        && endpoint == w[0] && message.data@ == w@.subrange(1, 5)
                },
                EchoState::Replying { ep } => {
                    &&& r.0 == (EchoState::Receiving { ep })
                    &&& r.1 == ProgramAction::Call(Syscall::Recv { endpoint: ep })
                },
                EchoState::Failed => r == (EchoState::Failed, ProgramAction::Panic),
            },
    {
        let w = match result {
            Ok(w) => w,
            Err(_) => return (EchoState::Failed, ProgramAction::Panic),
        };
        match self {
            EchoState::Receiving { ep } => {
                let message = Message { data: [w[1], w[2], w[3], w[4]] };
                assert(message.data@ =~= w@.subrange(1, 5));
                (
                    EchoState::Replying { ep },
                    ProgramAction::Call(Syscall::Reply { endpoint: w[0], message }),
                )
            },
            EchoState::Replying { ep } => (
                EchoState::Receiving { ep },
                ProgramAction::Call(Syscall::Recv { endpoint: ep }),
            ),
            EchoState::Failed => (EchoState::Failed, ProgramAction::Panic),
        }
    }
}

} // verus!
