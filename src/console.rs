//! The decisions of the interactive recorder console: command words, and
//! which recorder operations each command needs in each mode.

use vstd::prelude::*;
use vstd::string::StringExecFns;
use vstd::string::StrSliceExecFns;
use crate::recorder::MicrophoneMode;
use crate::text::{lower_of, split_tokens, string_views, to_lower, tokens_of};

verus! {

pub open spec fn is_digit(c: char) -> bool {
    '0' <= c <= '9'
}

pub open spec fn all_digits(s: Seq<char>) -> bool {
    forall|i: int| 0 <= i < s.len() ==> is_digit(#[trigger] s[i])
}

/// The value of a run of decimal digits.
pub open spec fn digits_value(s: Seq<char>) -> nat
    decreases s.len(),
{
    if s.len() == 0 {
        0
    } else {
        digits_value(s.drop_last()) * 10 + ((s.last() as u32) - ('0' as u32)) as nat
    }
}

/// `s` without one leading `+`.
pub open spec fn unsigned_digits(s: Seq<char>) -> Seq<char> {
    if s.len() > 0 && s[0] == '+' { s.drop_first() } else { s }
}

/// The number a console argument spells, as `str::parse::<usize>` reads
/// it: an optional `+`, then one or more ASCII digits, with a value that
/// fits a `usize`.
pub open spec fn index_of_text(s: Seq<char>) -> Option<usize> {
    let d = unsigned_digits(s);
    if d.len() > 0 && all_digits(d) && digits_value(d) <= usize::MAX {
        Some(digits_value(d) as usize)
    } else {
        None
    }
}

proof fn lemma_digits_value_grows(s: Seq<char>, j: int)
    requires
        all_digits(s),
        0 <= j <= s.len(),
    ensures
        digits_value(s.take(j)) <= digits_value(s),
    decreases s.len() - j,
{
    if j < s.len() {
        assert(all_digits(s.drop_last())) by {
            assert forall|i: int| 0 <= i < s.drop_last().len() implies is_digit(#[trigger] s.drop_last()[i]) by {
                assert(s.drop_last()[i] == s[i]);
            }
        }
        if j < s.len() {
            assert(s.drop_last().take(j) =~= s.take(j));
            lemma_digits_value_grows(s.drop_last(), j);
        }
    } else {
        assert(s.take(j) =~= s);
    }
}

/// Reads a console argument as a device index.
fn parse_index(s: &str) -> (r: Option<usize>)
    ensures
        r == index_of_text(s@),
{
    let n = s.unicode_len();
    let start: usize = if n > 0 && s.get_char(0) == '+' { 1 } else { 0 };
    let ghost d = unsigned_digits(s@);
    proof {
        assert(d =~= s@.skip(start as int));
    }
    if start >= n {
        return None;
    }
    let mut acc: u128 = 0;
    let mut i: usize = start;
    while i < n
        invariant
            n == s@.len(),
            start <= i <= n,
            start < n,
            d == s@.skip(start as int),
            d == unsigned_digits(s@),
            all_digits(d.take(i - start)),
            acc == digits_value(d.take(i - start)),
            acc <= usize::MAX,
        decreases n - i,
    {
        let c = s.get_char(i);
        proof {
            assert(d[i - start] == c);
            assert(d.take(i - start + 1).drop_last() =~= d.take(i - start));
            assert(d.take(i - start + 1).last() == c);
        }
        if !('0' <= c && c <= '9') {
            proof {
                assert(!is_digit(d[i - start]));
                assert(!all_digits(d));
            }
            return None;
        }
        let v: u128 = acc * 10 + ((c as u32) - ('0' as u32)) as u128;
        proof {
            assert(all_digits(d.take(i - start + 1))) by {
                assert forall|k: int| 0 <= k < d.take(i - start + 1).len() implies is_digit(#[trigger] d.take(i - start + 1)[k]) by {
                    if k < i - start {
                        assert(d.take(i - start + 1)[k] == d.take(i - start)[k]);
                    }
                }
            }
        }
        proof {
            assert(v == digits_value(d.take(i - start + 1)));
        }
        if v > usize::MAX as u128 {
            proof {
                if all_digits(d) {
                    lemma_digits_value_grows(d, i - start + 1);
                }
            }
            return None;
        }
        acc = v;
        i = i + 1;
    }
    proof {
        assert(d.take(i - start) =~= d);
    }
    Some(acc as usize)
}

/// An operation on the recorder, performed by the caller in order.
#[derive(Debug, Clone, Copy, PartialEq, Eq, Structural)]
pub enum RecorderOp {
    /// Open the stream on a device (`None`: the default device).
    Open(Option<usize>),
    Close,
    Start,
    /// Stop and collect the utterance.
    Stop,
}

/// Why a console command was refused.
#[derive(Debug, Clone, Copy, PartialEq, Eq, Structural)]
pub enum ConsoleError {
    AlreadyRecording,
    NotRecording,
    InvalidDevice,
}

/// The console's state, as plain values.
pub struct ConsoleModel {
    pub mode: MicrophoneMode,
    pub is_recording: bool,
    pub is_open: bool,
    pub current_device_index: Option<usize>,
    /// Number of the next recording file.
    pub recording_index: u32,
}

/// Tracks the recorder behind the console: open once in always-on mode,
/// opened for each recording and closed after it on demand.
pub struct RecorderState {
    mode: MicrophoneMode,
    is_recording: bool,
    is_open: bool,
    current_device_index: Option<usize>,
    recording_index: u32,
}

impl View for RecorderState {
    type V = ConsoleModel;

    closed spec fn view(&self) -> ConsoleModel {
        ConsoleModel {
            mode: self.mode,
            is_recording: self.is_recording,
            is_open: self.is_open,
            current_device_index: self.current_device_index,
            recording_index: self.recording_index,
        }
    }
}

/// Operations and next state for a stop.
pub open spec fn stop_ops_spec(m: ConsoleModel) -> (Seq<RecorderOp>, ConsoleModel) {
    if m.mode == MicrophoneMode::OnDemand {
        (seq![RecorderOp::Stop, RecorderOp::Close],
            ConsoleModel { is_recording: false, is_open: false, current_device_index: None, ..m })
    } else {
        (seq![RecorderOp::Stop], ConsoleModel { is_recording: false, ..m })
    }
}

/// Operations and next state for a start on `device` (already checked).
pub open spec fn start_ops_spec(m: ConsoleModel, device: Option<usize>) -> (Seq<RecorderOp>, ConsoleModel) {
    let next = ConsoleModel { is_recording: true, is_open: true, current_device_index: device, ..m };
    if m.mode == MicrophoneMode::AlwaysOn {
        if !m.is_open {
            (seq![RecorderOp::Open(device), RecorderOp::Start], next)
        } else if m.current_device_index != device {
            (seq![RecorderOp::Close, RecorderOp::Open(device), RecorderOp::Start], next)
        } else {
            (seq![RecorderOp::Start], ConsoleModel { is_recording: true, ..m })
        }
    } else {
        if m.is_open {
            (seq![RecorderOp::Close, RecorderOp::Open(device), RecorderOp::Start], next)
        } else {
            (seq![RecorderOp::Open(device), RecorderOp::Start], next)
        }
    }
}

impl RecorderState {
    pub fn new() -> (r: Self)
        ensures
            r@ == (ConsoleModel {
                mode: MicrophoneMode::AlwaysOn,
                is_recording: false,
                is_open: false,
                current_device_index: None,
                recording_index: 1,
            }),
    {
        RecorderState {
            mode: MicrophoneMode::AlwaysOn,
            is_recording: false,
            is_open: false,
            current_device_index: None,
            recording_index: 1,
        }
    }

    pub fn mode(&self) -> (r: MicrophoneMode)
        ensures
            r == self@.mode,
    {
        self.mode
    }

    pub fn is_recording(&self) -> (r: bool)
        ensures
            r == self@.is_recording,
    {
        self.is_recording
    }

    pub fn is_open(&self) -> (r: bool)
        ensures
            r == self@.is_open,
    {
        self.is_open
    }

    pub fn current_device_index(&self) -> (r: Option<usize>)
        ensures
            r == self@.current_device_index,
    {
        self.current_device_index
    }

    /// Number of the next recording file.
    pub fn recording_index(&self) -> (r: u32)
        ensures
            r == self@.recording_index,
    {
        self.recording_index
    }

    /// A recording was saved: the next one gets the following number.
    pub fn note_saved(&mut self)
        ensures
            final(self)@ == (ConsoleModel {
                recording_index: if old(self)@.recording_index < u32::MAX {
                    (old(self)@.recording_index + 1) as u32
                } else {
                    old(self)@.recording_index
                },
                ..old(self)@
            }),
    {
        if self.recording_index < u32::MAX {
            self.recording_index = self.recording_index + 1;
        }
    }

    /// Starts recording on device `device_index` of `n_devices` (`None`:
    /// the default device).
    pub fn start_recording(&mut self, device_index: Option<usize>, n_devices: usize) -> (r: Result<Vec<RecorderOp>, ConsoleError>)
        ensures
            old(self)@.is_recording ==> r == Err::<Vec<RecorderOp>, ConsoleError>(ConsoleError::AlreadyRecording)
                && final(self)@ == old(self)@,
            !old(self)@.is_recording && device_index is Some && device_index.unwrap() >= n_devices
                ==> r == Err::<Vec<RecorderOp>, ConsoleError>(ConsoleError::InvalidDevice) && final(self)@ == old(self)@,
            !old(self)@.is_recording && (device_index is None || device_index.unwrap() < n_devices) ==> r is Ok
                && (r.unwrap()@, final(self)@) == start_ops_spec(old(self)@, device_index),
    {
        if self.is_recording {
            return Err(ConsoleError::AlreadyRecording);
        }
        match device_index {
            Some(i) => if i >= n_devices {
                return Err(ConsoleError::InvalidDevice);
            },
            None => {},
        }
        let mut ops: Vec<RecorderOp> = Vec::new();
        if self.mode == MicrophoneMode::AlwaysOn {
            if !self.is_open || self.current_device_index != device_index {
                if self.is_open {
                    ops.push(RecorderOp::Close);
                }
                ops.push(RecorderOp::Open(device_index));
                self.is_open = true;
                self.current_device_index = device_index;
            }
        } else {
            if self.is_open {
                ops.push(RecorderOp::Close);
            }
            ops.push(RecorderOp::Open(device_index));
            self.is_open = true;
            self.current_device_index = device_index;
        }
        ops.push(RecorderOp::Start);
        self.is_recording = true;
        proof {
            let (o, _) = start_ops_spec(old(self)@, device_index);
            assert(ops@ =~= o);
        }
        Ok(ops)
    }

    /// Stops the recording; on demand the stream closes too.
    pub fn stop_recording(&mut self) -> (r: Result<Vec<RecorderOp>, ConsoleError>)
        ensures
            !old(self)@.is_recording ==> r == Err::<Vec<RecorderOp>, ConsoleError>(ConsoleError::NotRecording)
                && final(self)@ == old(self)@,
            old(self)@.is_recording ==> r is Ok && (r.unwrap()@, final(self)@) == stop_ops_spec(old(self)@),
    {
        if !self.is_recording {
            return Err(ConsoleError::NotRecording);
        }
        let mut ops: Vec<RecorderOp> = Vec::new();
        ops.push(RecorderOp::Stop);
        self.is_recording = false;
        if self.mode == MicrophoneMode::OnDemand {
            ops.push(RecorderOp::Close);
            self.is_open = false;
            self.current_device_index = None;
        }
        proof {
            let (o, _) = stop_ops_spec(old(self)@);
            assert(ops@ =~= o);
        }
        Ok(ops)
    }

    /// Switches the mode: a recording in flight is stopped first, and
    /// leaving always-on closes an open stream.
    pub fn switch_mode(&mut self, new_mode: MicrophoneMode) -> (r: Vec<RecorderOp>)
        ensures
            final(self)@.mode == new_mode,
            final(self)@.recording_index == old(self)@.recording_index,
            old(self)@.mode != new_mode ==> !final(self)@.is_recording,
            old(self)@.mode == new_mode ==> r@.len() == 0 && final(self)@ == old(self)@,
            old(self)@.mode != new_mode ==> {
                let (stop_ops, after) = if old(self)@.is_recording {
                    stop_ops_spec(old(self)@)
                } else {
                    (Seq::<RecorderOp>::empty(), old(self)@)
                };
                let closes = after.is_open && after.mode == MicrophoneMode::AlwaysOn && new_mode == MicrophoneMode::OnDemand;
                &&& r@ == (if closes { stop_ops.push(RecorderOp::Close) } else { stop_ops })
                &&& final(self)@.is_open == (after.is_open && !closes)
                &&& final(self)@.current_device_index == after.current_device_index
            },
    {
        if self.mode == new_mode {
            return Vec::new();
        }
        let mut ops: Vec<RecorderOp> = Vec::new();
        if self.is_recording {
            match self.stop_recording() {
                Ok(v) => {
                    ops = v;
                },
                Err(_) => {},
            }
        }
        if self.is_open && self.mode == MicrophoneMode::AlwaysOn && new_mode == MicrophoneMode::OnDemand {
            ops.push(RecorderOp::Close);
            self.is_open = false;
        }
        self.mode = new_mode;
        ops
    }

    /// Shuts the console down: stops a recording and closes the stream.
    pub fn close(&mut self) -> (r: Vec<RecorderOp>)
        ensures
            !final(self)@.is_recording,
            !final(self)@.is_open,
            final(self)@.mode == old(self)@.mode,
            final(self)@.recording_index == old(self)@.recording_index,
            old(self)@.is_recording ==> r@ == stop_ops_spec(old(self)@).0 + (if stop_ops_spec(old(self)@).1.is_open {
                seq![RecorderOp::Close]
            } else {
                Seq::<RecorderOp>::empty()
            }),
            !old(self)@.is_recording ==> r@ == (if old(self)@.is_open { seq![RecorderOp::Close] } else { Seq::empty() }),
    {
        let mut ops: Vec<RecorderOp> = Vec::new();
        if self.is_recording {
            match self.stop_recording() {
                Ok(v) => {
                    ops = v;
                },
                Err(_) => {},
            }
        }
        if self.is_open {
            ops.push(RecorderOp::Close);
            self.is_open = false;
        }
        proof {
            if old(self)@.is_recording {
                let (so, after) = stop_ops_spec(old(self)@);
                assert(ops@ =~= so + (if after.is_open { seq![RecorderOp::Close] } else { Seq::<RecorderOp>::empty() }));
            }
            if !old(self)@.is_recording {
                assert(ops@ =~= (if old(self)@.is_open { seq![RecorderOp::Close] } else { Seq::<RecorderOp>::empty() }));
            }
        }
        ops
    }
}

/// A console command, parsed from one input line.
#[derive(Debug, Clone, Copy, PartialEq, Eq, Structural)]
pub enum ConsoleCommand {
    Empty,
    /// `start [device]`.
    Start(Option<usize>),
    /// A device argument that is not a number.
    BadDeviceIndex,
    Stop,
    /// `mode` alone shows the mode; `None` inside: the word was not a mode.
    Mode(Option<Option<MicrophoneMode>>),
    Devices,
    Status,
    Help,
    Quit,
    Unknown,
}

pub open spec fn mode_of_word(w: Seq<char>) -> Option<MicrophoneMode> {
    if w == "always"@ || w == "alwayson"@ || w == "always-on"@ || w == "a"@ {
        Some(MicrophoneMode::AlwaysOn)
    } else if w == "demand"@ || w == "ondemand"@ || w == "on-demand"@ || w == "d"@ {
        Some(MicrophoneMode::OnDemand)
    } else {
        None
    }
}

fn is_one_of(w: &String, names: &[&str]) -> (r: bool)
    ensures
        r == exists|i: int| 0 <= i < names@.len() && names@[i]@ == w@,
{
    let mut i: usize = 0;
    while i < names.len()
        invariant
            0 <= i <= names@.len(),
            forall|j: int| 0 <= j < i ==> names@[j]@ != w@,
        decreases names@.len() - i,
    {
        let name = String::from_str(names[i]);
        if name == *w {
            return true;
        }
        i = i + 1;
    }
    false
}

/// The mode a word names, ignoring case.
pub fn parse_mode_word(word: &str) -> (r: Option<MicrophoneMode>)
    ensures
        r == mode_of_word(lower_of(word@)),
{
    let w = to_lower(word);
    let always = ["always", "alwayson", "always-on", "a"];
    let demand = ["demand", "ondemand", "on-demand", "d"];
    if is_one_of(&w, &always) {
        proof {
            let i = choose|i: int| 0 <= i < always@.len() && always@[i]@ == w@;
        }
        Some(MicrophoneMode::AlwaysOn)
    } else if is_one_of(&w, &demand) {
        proof {
            assert(!(w@ == "always"@ || w@ == "alwayson"@ || w@ == "always-on"@ || w@ == "a"@)) by {
                assert(always@[0]@ == "always"@);
                assert(always@[1]@ == "alwayson"@);
                assert(always@[2]@ == "always-on"@);
                assert(always@[3]@ == "a"@);
            }
        }
        Some(MicrophoneMode::OnDemand)
    } else {
        proof {
            assert(always@[0]@ == "always"@);
            assert(always@[1]@ == "alwayson"@);
            assert(always@[2]@ == "always-on"@);
            assert(always@[3]@ == "a"@);
            assert(demand@[0]@ == "demand"@);
            assert(demand@[1]@ == "ondemand"@);
            assert(demand@[2]@ == "on-demand"@);
            assert(demand@[3]@ == "d"@);
        }
        None
    }
}


/// The command an input line spells; the command word ignores case.
pub open spec fn command_of(line: Seq<char>) -> ConsoleCommand {
    let toks = tokens_of(line);
    if toks.len() == 0 {
        ConsoleCommand::Empty
    } else {
        let w = lower_of(toks[0]);
        if w == "start"@ || w == "s"@ {
            if toks.len() > 1 {
                match index_of_text(toks[1]) {
                    Some(i) => ConsoleCommand::Start(Some(i)),
                    None => ConsoleCommand::BadDeviceIndex,
                }
            } else {
                ConsoleCommand::Start(None)
            }
        } else if w == "stop"@ {
            ConsoleCommand::Stop
        } else if w == "mode"@ {
            if toks.len() > 1 {
                ConsoleCommand::Mode(Some(mode_of_word(lower_of(toks[1]))))
            } else {
                ConsoleCommand::Mode(None)
            }
        } else if w == "devices"@ || w == "dev"@ {
            ConsoleCommand::Devices
        } else if w == "status"@ {
            ConsoleCommand::Status
        } else if w == "help"@ || w == "h"@ {
            ConsoleCommand::Help
        } else if w == "quit"@ || w == "exit"@ || w == "q"@ {
            ConsoleCommand::Quit
        } else if w.len() == 0 {
            ConsoleCommand::Empty
        } else {
            ConsoleCommand::Unknown
        }
    }
}

fn word_is(w: &String, lit: &str) -> (r: bool)
    ensures
        r == (w@ == lit@),
{
    let l = String::from_str(lit);
    *w == l
}

/// Parses one console line.
pub fn parse_command(line: &str) -> (r: ConsoleCommand)
    ensures
        r == command_of(line@),
{
    let toks = split_tokens(line);
    proof {
        assert(string_views(toks@).len() == toks@.len());
    }
    if toks.len() == 0 {
        return ConsoleCommand::Empty;
    }
    proof {
        assert(string_views(toks@)[0] == toks@[0]@);
        if toks@.len() > 1 {
            assert(string_views(toks@)[1] == toks@[1]@);
        }
    }
    let w = to_lower(toks[0].as_str());
    if word_is(&w, "start") || word_is(&w, "s") {
        if toks.len() > 1 {
            match parse_index(toks[1].as_str()) {
                Some(i) => ConsoleCommand::Start(Some(i)),
                None => ConsoleCommand::BadDeviceIndex,
            }
        } else {
            ConsoleCommand::Start(None)
        }
    } else if word_is(&w, "stop") {
        ConsoleCommand::Stop
    } else if word_is(&w, "mode") {
        if toks.len() > 1 {
            ConsoleCommand::Mode(Some(parse_mode_word(toks[1].as_str())))
        } else {
            ConsoleCommand::Mode(None)
        }
    } else if word_is(&w, "devices") || word_is(&w, "dev") {
        ConsoleCommand::Devices
    } else if word_is(&w, "status") {
        ConsoleCommand::Status
    } else if word_is(&w, "help") || word_is(&w, "h") {
        ConsoleCommand::Help
    } else if word_is(&w, "quit") || word_is(&w, "exit") || word_is(&w, "q") {
        ConsoleCommand::Quit
    } else if w.as_str().unicode_len() == 0 {
        ConsoleCommand::Empty
    } else {
        ConsoleCommand::Unknown
    }
}

} // verus!
