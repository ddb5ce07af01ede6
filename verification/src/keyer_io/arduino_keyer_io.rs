use vstd::prelude::*;
use crate::keyer_io::keyer_io::{KeyerEdgeDurationMs, KeyingEvent, KeyingTimedEvent};

verus! {

/// Where the keyer protocol is, in the stream of bytes from the keyer.
#[derive(Debug, PartialEq, Eq, Structural, Copy, Clone)]
pub enum KeyerState {
    Initial,
    KeyingDurationGetLSB,
    KeyingDurationGetMSB,
    ResponseGotGt,
    ResponseGotSpc,
    ResponseFinish,
    WaitForEndOfComment,
}

/// What the keyer protocol asks of its caller after a byte from the keyer.
#[derive(Debug, PartialEq, Eq)]
pub enum KeyerAction {
    /// Nothing to do.
    Nothing,
    /// Send this keying event on the keying output, if there is one.
    SendKeying(KeyingEvent),
    /// Reply to the command in flight with this response text.
    Respond(Vec<u8>),
    /// The keyer sent this byte where a response was expected.
    UnexpectedResponseData(u8),
    /// Pause briefly, so that other threads get to run.
    Pause,
}

/// What the keyer protocol asks of its caller, as a mathematical value.
pub enum ProtocolOutput {
    Nothing,
    SendKeying(KeyingEvent),
    Respond(Seq<u8>),
    UnexpectedResponseData(u8),
    Pause,
}

impl KeyerAction {
    pub open spec fn view(&self) -> ProtocolOutput {
        match self {
            KeyerAction::Nothing => ProtocolOutput::Nothing,
            KeyerAction::SendKeying(e) => ProtocolOutput::SendKeying(*e),
            KeyerAction::Respond(text) => ProtocolOutput::Respond(text@),
            KeyerAction::UnexpectedResponseData(ch) => ProtocolOutput::UnexpectedResponseData(*ch),
            KeyerAction::Pause => ProtocolOutput::Pause,
        }
    }
}

/// The state of the keyer protocol, as a mathematical value.
pub struct ProtocolModel {
    pub state: KeyerState,
    pub up: bool,
    pub duration: KeyerEdgeDurationMs,
    pub read_text: Seq<u8>,
}

/// One step of the keyer protocol: the state after the byte `ch`, and what is asked.
///
/// Keying arrives as `S` (start), `E` (end), or `+` / `-` followed by a 16-bit duration, most
/// significant byte first (`+` for a key-down edge, reported with `up` false; `-` for key up).
/// A response to a command is `> text` ended by two newlines; a comment is `#` to a newline;
/// `_` asks for a pause.
pub open spec fn protocol_step(m: ProtocolModel, ch: u8) -> (ProtocolModel, ProtocolOutput) {
    match m.state {
        KeyerState::Initial => {
            if ch == 0x23u8 {  // '#'
                (ProtocolModel { state: KeyerState::WaitForEndOfComment, read_text: seq![], ..m },
                ProtocolOutput::Nothing)
            } else if ch == 0x3eu8 {  // '>'
                (ProtocolModel { state: KeyerState::ResponseGotGt, read_text: seq![], ..m },
                ProtocolOutput::Nothing)
            } else if ch == 0x53u8 {  // 'S'
                (m, ProtocolOutput::SendKeying(KeyingEvent::Start()))
            } else if ch == 0x45u8 {  // 'E'
                (m, ProtocolOutput::SendKeying(KeyingEvent::End()))
            } else if ch == 0x2bu8 {  // '+'
                (ProtocolModel {
                    state: KeyerState::KeyingDurationGetMSB,
                    up: false,
                    duration: 0,
                    ..m
                }, ProtocolOutput::Nothing)
            } else if ch == 0x2du8 {  // '-'
                (ProtocolModel {
                    state: KeyerState::KeyingDurationGetMSB,
                    up: true,
                    duration: 0,
                    ..m
                }, ProtocolOutput::Nothing)
            } else if ch == 0x5fu8 {  // '_'
                (m, ProtocolOutput::Pause)
            } else {
                (m, ProtocolOutput::Nothing)
            }
        },
        KeyerState::KeyingDurationGetLSB => {
            let duration = m.duration | ((ch as u16) & 0x00ffu16);
            (ProtocolModel { state: KeyerState::Initial, duration, ..m },
            ProtocolOutput::SendKeying(
                KeyingEvent::Timed(KeyingTimedEvent { up: m.up, duration }),
            ))
        },
        KeyerState::KeyingDurationGetMSB => {
            (ProtocolModel {
                state: KeyerState::KeyingDurationGetLSB,
                duration: ((ch as u16) << 8u16) & 0xff00u16,
                ..m
            }, ProtocolOutput::Nothing)
        },
        KeyerState::ResponseGotGt => {
            if ch == 0x20u8 {  // ' '
                (ProtocolModel { state: KeyerState::ResponseGotSpc, ..m }, ProtocolOutput::Nothing)
            } else {
                (m, ProtocolOutput::UnexpectedResponseData(ch))
            }
        },
        KeyerState::ResponseGotSpc => {
            if ch == 0x0au8 {  // '\n'
                (ProtocolModel { state: KeyerState::ResponseFinish, ..m }, ProtocolOutput::Nothing)
            } else {
                (ProtocolModel { read_text: m.read_text.push(ch), ..m }, ProtocolOutput::Nothing)
            }
        },
        KeyerState::ResponseFinish => {
            if ch == 0x3eu8 {  // '>'
                (ProtocolModel { state: KeyerState::ResponseGotGt, ..m }, ProtocolOutput::Nothing)
            } else if ch == 0x0au8 {  // '\n'
                (ProtocolModel { state: KeyerState::Initial, ..m }, ProtocolOutput::Respond(
                    m.read_text,
                ))
            } else {
                (m, ProtocolOutput::UnexpectedResponseData(ch))
            }
        },
        KeyerState::WaitForEndOfComment => {
            if ch == 0x0au8 {  // '\n'
                (ProtocolModel { state: KeyerState::Initial, ..m }, ProtocolOutput::Nothing)
            } else {
                (m, ProtocolOutput::Nothing)
            }
        },
    }
}

/// The state after a sequence of bytes, and what each byte asked, in order.
pub open spec fn protocol_run(m: ProtocolModel, bytes: Seq<u8>) -> (ProtocolModel, Seq<ProtocolOutput>)
    decreases bytes.len(),
{
    if bytes.len() == 0 {
        (m, seq![])
    } else {
        let (before, outputs) = protocol_run(m, bytes.drop_last());
        let (after, output) = protocol_step(before, bytes.last());
        (after, outputs.push(output))
    }
}

/// The decision-making half of the Arduino keyer's I/O thread: a state machine that consumes
/// the bytes the keyer sends, one at a time, and says what to do with each.
pub struct ArduinoKeyerProtocol {
    state: KeyerState,
    up: bool,
    duration: KeyerEdgeDurationMs,
    read_text: Vec<u8>,
}

impl ArduinoKeyerProtocol {
    /// The protocol's state as a mathematical value.
    pub closed spec fn view(&self) -> ProtocolModel {
        ProtocolModel {
            state: self.state,
            up: self.up,
            duration: self.duration,
            read_text: self.read_text@,
        }
    }

    /// The protocol before the keyer has sent anything.
    pub fn new() -> (protocol: Self)
        ensures
            protocol@ == (ProtocolModel {
                state: KeyerState::Initial,
                up: false,
                duration: 0,
                read_text: seq![],
            }),
    {
        Self { state: KeyerState::Initial, up: false, duration: 0, read_text: Vec::new() }
    }

    /// The current state.
    pub fn state(&self) -> (state: KeyerState)
        ensures
            state == self@.state,
    {
        self.state
    }

    /// After a command has been written to the keyer, its response is awaited from the start.
    pub fn command_sent(&mut self)
        ensures
            final(self)@ == (ProtocolModel { state: KeyerState::Initial, ..old(self)@ }),
    {
        self.set_state(KeyerState::Initial);
    }

    fn set_state(&mut self, new_state: KeyerState)
        ensures
            final(self)@ == (ProtocolModel { state: new_state, ..old(self)@ }),
    {
        self.state = new_state;
    }

    fn initial(&mut self, ch: u8) -> (action: KeyerAction)
        requires
            old(self)@.state == KeyerState::Initial,
        ensures
            (final(self)@, action@) == protocol_step(old(self)@, ch),
    {
        if ch == 0x23u8 /* b'#' */ {
            self.read_text.clear();
            self.set_state(KeyerState::WaitForEndOfComment);
            KeyerAction::Nothing
        } else if ch == 0x3eu8 /* b'>' */ {
            self.read_text.clear();
            self.set_state(KeyerState::ResponseGotGt);
            KeyerAction::Nothing
        } else if ch == 0x53u8 /* b'S' */ {
            KeyerAction::SendKeying(KeyingEvent::Start())
        } else if ch == 0x45u8 /* b'E' */ {
            KeyerAction::SendKeying(KeyingEvent::End())
        } else if ch == 0x2bu8 /* b'+' */ {
            self.up = false;
            self.duration = 0;
            self.set_state(KeyerState::KeyingDurationGetMSB);
            KeyerAction::Nothing
        } else if ch == 0x2du8 /* b'-' */ {
            self.up = true;
            self.duration = 0;
            self.set_state(KeyerState::KeyingDurationGetMSB);
            KeyerAction::Nothing
        } else if ch == 0x5fu8 /* b'_' */ {
            KeyerAction::Pause
        } else {
            KeyerAction::Nothing
        }
    }

    fn keying_duration_get_lsb(&mut self, ch: u8) -> (action: KeyerAction)
        requires
            old(self)@.state == KeyerState::KeyingDurationGetLSB,
        ensures
            (final(self)@, action@) == protocol_step(old(self)@, ch),
    {
        self.duration = self.duration | ((ch as KeyerEdgeDurationMs) & 0x00FF);
        let event = KeyingEvent::Timed(KeyingTimedEvent { up: self.up, duration: self.duration });
        self.set_state(KeyerState::Initial);
        KeyerAction::SendKeying(event)
    }

    fn keying_duration_get_msb(&mut self, ch: u8) -> (action: KeyerAction)
        requires
            old(self)@.state == KeyerState::KeyingDurationGetMSB,
        ensures
            (final(self)@, action@) == protocol_step(old(self)@, ch),
    {
        self.duration = ((ch as KeyerEdgeDurationMs) << 8u16) & 0xFF00;
        self.set_state(KeyerState::KeyingDurationGetLSB);
        KeyerAction::Nothing
    }

    fn response_got_gt(&mut self, ch: u8) -> (action: KeyerAction)
        requires
            old(self)@.state == KeyerState::ResponseGotGt,
        ensures
            (final(self)@, action@) == protocol_step(old(self)@, ch),
    {
        if ch == 0x20u8 /* b' ' */ {
            self.set_state(KeyerState::ResponseGotSpc);
            KeyerAction::Nothing
        } else {
            KeyerAction::UnexpectedResponseData(ch)
        }
    }

    fn response_got_spc(&mut self, ch: u8) -> (action: KeyerAction)
        requires
            old(self)@.state == KeyerState::ResponseGotSpc,
        ensures
            (final(self)@, action@) == protocol_step(old(self)@, ch),
    {
        if ch == 0x0au8 /* b'\n' */ {
            self.set_state(KeyerState::ResponseFinish);
        } else {
            self.read_text.push(ch);
        }
        KeyerAction::Nothing
    }

    fn response_finish(&mut self, ch: u8) -> (action: KeyerAction)
        requires
            old(self)@.state == KeyerState::ResponseFinish,
        ensures
            (final(self)@, action@) == protocol_step(old(self)@, ch),
    {
        if ch == 0x3eu8 /* b'>' */ {
            self.set_state(KeyerState::ResponseGotGt);
            KeyerAction::Nothing
        } else if ch == 0x0au8 /* b'\n' */ {
            self.set_state(KeyerState::Initial);
            KeyerAction::Respond(self.read_text.clone())
        } else {
            KeyerAction::UnexpectedResponseData(ch)
        }
    }

    fn wait_for_end_of_comment(&mut self, ch: u8) -> (action: KeyerAction)
        requires
            old(self)@.state == KeyerState::WaitForEndOfComment,
        ensures
            (final(self)@, action@) == protocol_step(old(self)@, ch),
    {
        if ch == 0x0au8 /* b'\n' */ {
            self.set_state(KeyerState::Initial);
        }
        KeyerAction::Nothing
    }

    /// Consumes one byte from the keyer: the state moves on, and the action says what to do.
    pub fn receive(&mut self, ch: u8) -> (action: KeyerAction)
        ensures
            (final(self)@, action@) == protocol_step(old(self)@, ch),
    {
        match self.state {
            KeyerState::Initial => self.initial(ch),
            KeyerState::KeyingDurationGetLSB => self.keying_duration_get_lsb(ch),
            KeyerState::KeyingDurationGetMSB => self.keying_duration_get_msb(ch),
            KeyerState::ResponseGotGt => self.response_got_gt(ch),
            KeyerState::ResponseGotSpc => self.response_got_spc(ch),
            KeyerState::ResponseFinish => self.response_finish(ch),
            KeyerState::WaitForEndOfComment => self.wait_for_end_of_comment(ch),
        }
    }
}

proof fn lemma_run_push(m: ProtocolModel, bytes: Seq<u8>, ch: u8)
    ensures
        protocol_run(m, bytes.push(ch)) == ({
            let (before, outputs) = protocol_run(m, bytes);
            let (after, output) = protocol_step(before, ch);
            (after, outputs.push(output))
        }),
{
    assert(bytes.push(ch).drop_last() =~= bytes);
}

/// A keying edge, `+` or `-` and its duration's two bytes most significant first, read from
/// the initial state, is reported as one timed event of that duration (`+` as not up, `-` as
/// up), and the protocol is back in its initial state.
pub proof fn lemma_keying_edge_decodes(m: ProtocolModel, minus: bool, duration: KeyerEdgeDurationMs)
    requires
        m.state == KeyerState::Initial,
    ensures
        ({
            let sign: u8 = if minus { 0x2du8 } else { 0x2bu8 };
            let bytes = seq![sign, (duration >> 8u16) as u8, (duration & 0xffu16) as u8];
            let (after, outputs) = protocol_run(m, bytes);
            &&& after.state == KeyerState::Initial
            &&& outputs == seq![
                ProtocolOutput::Nothing,
                ProtocolOutput::Nothing,
                ProtocolOutput::SendKeying(
                    KeyingEvent::Timed(KeyingTimedEvent { up: minus, duration }),
                ),
            ]
        }),
{
    let sign: u8 = if minus { 0x2du8 } else { 0x2bu8 };
    let hi = (duration >> 8u16) as u8;
    let lo = (duration & 0xffu16) as u8;
    let bytes = seq![sign, hi, lo];
    lemma_run_push(m, seq![], sign);
    assert(seq![sign] =~= Seq::<u8>::empty().push(sign));
    lemma_run_push(m, seq![sign], hi);
    assert(seq![sign, hi] =~= seq![sign].push(hi));
    lemma_run_push(m, seq![sign, hi], lo);
    assert(bytes =~= seq![sign, hi].push(lo));
    assert(((((hi as u16) << 8u16) & 0xff00u16) | ((lo as u16) & 0x00ffu16)) == duration)
        by (bit_vector)
        requires
            hi == (duration >> 8u16) as u8,
            lo == (duration & 0xffu16) as u8,
    ;
    let (after, outputs) = protocol_run(m, bytes);
    assert(outputs =~= seq![
        ProtocolOutput::Nothing,
        ProtocolOutput::Nothing,
        ProtocolOutput::SendKeying(KeyingEvent::Timed(KeyingTimedEvent { up: minus, duration })),
    ]);
}


/// `n` outputs that ask for nothing.
pub open spec fn nothing_outputs(n: nat) -> Seq<ProtocolOutput> {
    Seq::new(n, |i: int| ProtocolOutput::Nothing)
}

/// Whether the bytes hold no newline.
pub open spec fn newline_free(bytes: Seq<u8>) -> bool {
    forall|i: int| 0 <= i < bytes.len() ==> #[trigger] bytes[i] != 0x0au8
}

/// Running two sequences of bytes one after the other is running their concatenation.
proof fn lemma_run_concat(m: ProtocolModel, a: Seq<u8>, b: Seq<u8>)
    ensures
        protocol_run(m, a + b) == ({
            let (middle, first) = protocol_run(m, a);
            let (after, second) = protocol_run(middle, b);
            (after, first + second)
        }),
    decreases b.len(),
{
    if b.len() == 0 {
        assert(a + b =~= a);
        let (middle, first) = protocol_run(m, a);
        assert(first + seq![] =~= first);
    } else {
        lemma_run_concat(m, a, b.drop_last());
        assert((a + b).drop_last() =~= a + b.drop_last());
        let (middle, first) = protocol_run(m, a);
        let (before, second) = protocol_run(middle, b.drop_last());
        let (after, output) = protocol_step(before, b.last());
        assert(first + second.push(output) =~= (first + second).push(output));
    }
}

/// Inside a comment, bytes other than a newline are skipped.
proof fn lemma_comment_body(m: ProtocolModel, text: Seq<u8>)
    requires
        m.state == KeyerState::WaitForEndOfComment,
        newline_free(text),
    ensures
        protocol_run(m, text) == (m, nothing_outputs(text.len())),
    decreases text.len(),
{
    if text.len() > 0 {
        lemma_comment_body(m, text.drop_last());
        assert(nothing_outputs((text.len() - 1) as nat).push(ProtocolOutput::Nothing)
            =~= nothing_outputs(text.len()));
    } else {
        assert(nothing_outputs(0) =~= seq![]);
    }
}

/// Inside a response line, bytes other than a newline are collected as its text.
proof fn lemma_response_body(m: ProtocolModel, text: Seq<u8>)
    requires
        m.state == KeyerState::ResponseGotSpc,
        newline_free(text),
    ensures
        protocol_run(m, text) == (ProtocolModel { read_text: m.read_text + text, ..m }, nothing_outputs(text.len())),
    decreases text.len(),
{
    if text.len() > 0 {
        lemma_response_body(m, text.drop_last());
        assert(m.read_text + text.drop_last() + seq![text.last()] =~= m.read_text + text);
        assert((m.read_text + text.drop_last()).push(text.last()) =~= m.read_text + text);
        assert(nothing_outputs((text.len() - 1) as nat).push(ProtocolOutput::Nothing)
            =~= nothing_outputs(text.len()));
    } else {
        assert(m.read_text + text =~= m.read_text);
        assert(nothing_outputs(0) =~= seq![]);
    }
}

/// A comment from the initial state, `#` and text up to a newline, asks for nothing and leaves
/// the protocol in its initial state.
pub proof fn lemma_comment_is_skipped(m: ProtocolModel, text: Seq<u8>)
    requires
        m.state == KeyerState::Initial,
        newline_free(text),
    ensures
        protocol_run(m, seq![0x23u8] + text + seq![0x0au8]) == (
            ProtocolModel { read_text: seq![], ..m },
            nothing_outputs(text.len() + 2),
        ),
{
    let inside = ProtocolModel { state: KeyerState::WaitForEndOfComment, read_text: seq![], ..m };
    lemma_run_push(m, seq![], 0x23u8);
    assert(seq![0x23u8] =~= Seq::<u8>::empty().push(0x23u8));
    lemma_comment_body(inside, text);
    lemma_run_concat(m, seq![0x23u8], text);
    lemma_run_push(m, seq![0x23u8] + text, 0x0au8);
    assert(seq![0x23u8] + text + seq![0x0au8] =~= (seq![0x23u8] + text).push(0x0au8));
    assert(seq![ProtocolOutput::Nothing] + nothing_outputs(text.len())
        =~= nothing_outputs(text.len() + 1));
    assert(nothing_outputs(text.len() + 1).push(ProtocolOutput::Nothing)
        =~= nothing_outputs(text.len() + 2));
}

/// A response from the initial state, `> `, its text, and two newlines, asks for nothing until
/// the second newline, which asks to respond with the text; the protocol is then back in its
/// initial state.
pub proof fn lemma_response_is_reported(m: ProtocolModel, text: Seq<u8>)
    requires
        m.state == KeyerState::Initial,
        newline_free(text),
    ensures
        protocol_run(m, seq![0x3eu8, 0x20u8] + text + seq![0x0au8, 0x0au8]) == (
            ProtocolModel { read_text: text, ..m },
            nothing_outputs(text.len() + 3).push(ProtocolOutput::Respond(text)),
        ),
{
    let head = seq![0x3eu8, 0x20u8];
    let inside = ProtocolModel { state: KeyerState::ResponseGotSpc, read_text: seq![], ..m };
    lemma_run_push(m, seq![], 0x3eu8);
    assert(seq![0x3eu8] =~= Seq::<u8>::empty().push(0x3eu8));
    lemma_run_push(m, seq![0x3eu8], 0x20u8);
    assert(head =~= seq![0x3eu8].push(0x20u8));
    lemma_response_body(inside, text);
    assert(inside.read_text + text =~= text);
    lemma_run_concat(m, head, text);
    lemma_run_push(m, head + text, 0x0au8);
    lemma_run_push(m, (head + text).push(0x0au8), 0x0au8);
    assert(head + text + seq![0x0au8, 0x0au8] =~= (head + text).push(0x0au8).push(0x0au8));
    assert(seq![ProtocolOutput::Nothing, ProtocolOutput::Nothing] + nothing_outputs(text.len())
        =~= nothing_outputs(text.len() + 2));
    assert(nothing_outputs(text.len() + 2).push(ProtocolOutput::Nothing)
        =~= nothing_outputs(text.len() + 3));
}

/// A response line, `> `, its text and a newline, read where a response line may start (the
/// initial state, or after an earlier line of the same response): the text is added after
/// the text read so far, or starts it afresh from the initial state, and the protocol then
/// waits for another line or the closing newline.
proof fn lemma_response_line(m: ProtocolModel, text: Seq<u8>)
    requires
        m.state == KeyerState::Initial || m.state == KeyerState::ResponseFinish,
        newline_free(text),
    ensures
        protocol_run(m, seq![0x3eu8, 0x20u8] + text + seq![0x0au8]) == (
            ProtocolModel {
                state: KeyerState::ResponseFinish,
                read_text: (if m.state == KeyerState::Initial {
                    text
                } else {
                    m.read_text + text
                }),
                ..m
            },
            nothing_outputs(text.len() + 3),
        ),
{
    let head = seq![0x3eu8, 0x20u8];
    let start_text = if m.state == KeyerState::Initial {
        seq![]
    } else {
        m.read_text
    };
    let inside = ProtocolModel { state: KeyerState::ResponseGotSpc, read_text: start_text, ..m };
    lemma_run_push(m, seq![], 0x3eu8);
    assert(seq![0x3eu8] =~= Seq::<u8>::empty().push(0x3eu8));
    lemma_run_push(m, seq![0x3eu8], 0x20u8);
    assert(head =~= seq![0x3eu8].push(0x20u8));
    assert(protocol_run(m, head).0 == inside);
    lemma_response_body(inside, text);
    if m.state == KeyerState::Initial {
        assert(start_text + text =~= text);
    }
    lemma_run_concat(m, head, text);
    lemma_run_push(m, head + text, 0x0au8);
    assert(head + text + seq![0x0au8] =~= (head + text).push(0x0au8));
    assert(seq![ProtocolOutput::Nothing, ProtocolOutput::Nothing] + nothing_outputs(text.len())
        =~= nothing_outputs(text.len() + 2));
    assert(nothing_outputs(text.len() + 2).push(ProtocolOutput::Nothing)
        =~= nothing_outputs(text.len() + 3));
}

/// A response of two lines, `> ` first text, newline, `> ` second text, newline, then the
/// closing newline, read from the initial state: the response is the texts of both lines, one
/// after the other, asked for at the closing newline and not before; the protocol is then back
/// in its initial state.
pub proof fn lemma_two_line_response_is_reported(m: ProtocolModel, first: Seq<u8>, second: Seq<u8>)
    requires
        m.state == KeyerState::Initial,
        newline_free(first),
        newline_free(second),
    ensures
        protocol_run(
            m,
            seq![0x3eu8, 0x20u8] + first + seq![0x0au8] + seq![0x3eu8, 0x20u8] + second + seq![0x0au8, 0x0au8],
        ) == (
            ProtocolModel { read_text: first + second, ..m },
            nothing_outputs(first.len() + second.len() + 6).push(ProtocolOutput::Respond(first + second)),
        ),
{
    let line1 = seq![0x3eu8, 0x20u8] + first + seq![0x0au8];
    let line2 = seq![0x3eu8, 0x20u8] + second + seq![0x0au8];
    lemma_response_line(m, first);
    let m1 = ProtocolModel { state: KeyerState::ResponseFinish, read_text: first, ..m };
    lemma_response_line(m1, second);
    lemma_run_concat(m, line1, line2);
    let m2 = ProtocolModel { state: KeyerState::ResponseFinish, read_text: first + second, ..m };
    assert(protocol_run(m, line1 + line2).0 == m2);
    assert(nothing_outputs(first.len() + 3) + nothing_outputs(second.len() + 3)
        =~= nothing_outputs(first.len() + second.len() + 6));
    lemma_run_push(m, line1 + line2, 0x0au8);
    assert(seq![0x3eu8, 0x20u8] + first + seq![0x0au8] + seq![0x3eu8, 0x20u8] + second + seq![
        0x0au8,
        0x0au8,
    ] =~= (line1 + line2).push(0x0au8));
}

/// The bytes of the response lines `> text` and a newline, one for each of `texts`.
pub open spec fn response_lines(texts: Seq<Seq<u8>>) -> Seq<u8>
    decreases texts.len(),
{
    if texts.len() == 0 {
        seq![]
    } else {
        response_lines(texts.drop_last()) + seq![0x3eu8, 0x20u8] + texts.last() + seq![0x0au8]
    }
}

/// The texts, one after another.
pub open spec fn joined(texts: Seq<Seq<u8>>) -> Seq<u8>
    decreases texts.len(),
{
    if texts.len() == 0 {
        seq![]
    } else {
        joined(texts.drop_last()) + texts.last()
    }
}

proof fn lemma_response_lines_read(m: ProtocolModel, texts: Seq<Seq<u8>>)
    requires
        m.state == KeyerState::Initial,
        texts.len() >= 1,
        forall|i: int| 0 <= i < texts.len() ==> newline_free(#[trigger] texts[i]),
    ensures
        protocol_run(m, response_lines(texts)) == (
            ProtocolModel { state: KeyerState::ResponseFinish, read_text: joined(texts), ..m },
            nothing_outputs(response_lines(texts).len()),
        ),
    decreases texts.len(),
{
    let last = texts.last();
    let line = seq![0x3eu8, 0x20u8] + last + seq![0x0au8];
    let prev = texts.drop_last();
    assert(newline_free(texts[texts.len() - 1]));
    assert(response_lines(texts) =~= response_lines(prev) + line);
    if texts.len() == 1 {
        assert(response_lines(prev) =~= Seq::<u8>::empty());
        assert(joined(prev) =~= Seq::<u8>::empty());
        assert(response_lines(texts) =~= line);
        assert(joined(texts) =~= last);
        lemma_response_line(m, last);
    } else {
        assert forall|i: int| 0 <= i < prev.len() implies newline_free(#[trigger] prev[i]) by {
            assert(prev[i] == texts[i]);
        }
        lemma_response_lines_read(m, prev);
        let middle = ProtocolModel { state: KeyerState::ResponseFinish, read_text: joined(prev), ..m };
        lemma_response_line(middle, last);
        lemma_run_concat(m, response_lines(prev), line);
        assert(nothing_outputs(response_lines(prev).len()) + nothing_outputs(last.len() + 3)
            =~= nothing_outputs(response_lines(texts).len()));
    }
}

/// A response of any number of lines, each `> `, its text and a newline, then the closing
/// newline, read from the initial state: the response is the texts of all the lines, one after
/// another, asked for at the closing newline and not before; the protocol is then back in its
/// initial state.
pub proof fn lemma_many_line_response_is_reported(m: ProtocolModel, texts: Seq<Seq<u8>>)
    requires
        m.state == KeyerState::Initial,
        texts.len() >= 1,
        forall|i: int| 0 <= i < texts.len() ==> newline_free(#[trigger] texts[i]),
    ensures
        protocol_run(m, response_lines(texts).push(0x0au8)) == (
            ProtocolModel { read_text: joined(texts), ..m },
            nothing_outputs(response_lines(texts).len()).push(ProtocolOutput::Respond(joined(texts))),
        ),
{
    lemma_response_lines_read(m, texts);
    lemma_run_push(m, response_lines(texts), 0x0au8);
}

} // verus!
