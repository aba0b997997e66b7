//! The device-level command model and the per-printer job queue.
//!
//! A physical printer is driven by a flat sequence of primitive commands
//! (`Command`).  Each printer is owned by exactly one actor; callers hand the
//! actor jobs through a queue that is drained strictly in submission order.
//! The queue model here carries a ghost history of everything already
//! executed, so first-in-first-out dispatch is stated and proved, not assumed.
use vstd::prelude::*;

pub mod discover;

verus! {

/// Underline style for subsequent text.
#[derive(Debug, PartialEq, Eq, Structural, Clone, Copy)]
pub enum UnderlineMode {
    Off,
    Single,
    Double,
}

/// Built-in character font selector.
#[derive(Debug, PartialEq, Eq, Structural, Clone, Copy)]
pub enum Font {
    A,
    B,
    C,
}

/// Horizontal alignment for subsequent output.
#[derive(Debug, PartialEq, Eq, Structural, Clone, Copy)]
pub enum JustifyMode {
    Left,
    Center,
    Right,
}

/// One primitive printer instruction, ready to be written to a device.
#[derive(Debug, PartialEq, Clone)]
pub enum Command {
    Write(String),
    Bold(bool),
    Underline(UnderlineMode),
    DoubleStrike(bool),
    Font(Font),
    Flip(bool),
    Justify(JustifyMode),
    Reverse(bool),
    Feed(u8),
    Ean13(String),
    Ean8(String),
    QrCode(String),
    Size(u8, u8),
    ResetSize,
    Cut,
    BitImageFromBytesWithWidth(Vec<u8>, u32),
}

/// Mathematical model of a primitive command: strings become char sequences,
/// image payloads become byte sequences.
pub enum CommandModel {
    Write(Seq<char>),
    Bold(bool),
    Underline(UnderlineMode),
    DoubleStrike(bool),
    Font(Font),
    Flip(bool),
    Justify(JustifyMode),
    Reverse(bool),
    Feed(u8),
    Ean13(Seq<char>),
    Ean8(Seq<char>),
    QrCode(Seq<char>),
    Size(u8, u8),
    ResetSize,
    Cut,
    BitImageFromBytesWithWidth(Seq<u8>, u32),
}

impl View for Command {
    type V = CommandModel;

    open spec fn view(&self) -> CommandModel {
        match self {
            Command::Write(s) => CommandModel::Write(s@),
            Command::Bold(b) => CommandModel::Bold(*b),
            Command::Underline(m) => CommandModel::Underline(*m),
            Command::DoubleStrike(b) => CommandModel::DoubleStrike(*b),
            Command::Font(f) => CommandModel::Font(*f),
            Command::Flip(b) => CommandModel::Flip(*b),
            Command::Justify(m) => CommandModel::Justify(*m),
            Command::Reverse(b) => CommandModel::Reverse(*b),
            Command::Feed(n) => CommandModel::Feed(*n),
            Command::Ean13(s) => CommandModel::Ean13(s@),
            Command::Ean8(s) => CommandModel::Ean8(s@),
            Command::QrCode(s) => CommandModel::QrCode(s@),
            Command::Size(w, h) => CommandModel::Size(*w, *h),
            Command::ResetSize => CommandModel::ResetSize,
            Command::Cut => CommandModel::Cut,
            Command::BitImageFromBytesWithWidth(bytes, w) => CommandModel::BitImageFromBytesWithWidth(
                bytes@,
                *w,
            ),
        }
    }
}

/// The models of a sequence of primitive commands.
pub open spec fn commands_view(s: Seq<Command>) -> Seq<CommandModel> {
    s.map_values(|c: Command| c@)
}

impl Command {
    /// A field-for-field copy of this command.
    pub fn duplicate(&self) -> (r: Command)
        ensures
            r@ == self@,
    {
        match self {
            Command::Write(s) => Command::Write(s.clone()),
            Command::Bold(b) => Command::Bold(*b),
            Command::Underline(m) => Command::Underline(*m),
            Command::DoubleStrike(b) => Command::DoubleStrike(*b),
            Command::Font(f) => Command::Font(*f),
            Command::Flip(b) => Command::Flip(*b),
            Command::Justify(m) => Command::Justify(*m),
            Command::Reverse(b) => Command::Reverse(*b),
            Command::Feed(n) => Command::Feed(*n),
            Command::Ean13(s) => Command::Ean13(s.clone()),
            Command::Ean8(s) => Command::Ean8(s.clone()),
            Command::QrCode(s) => Command::QrCode(s.clone()),
            Command::Size(w, h) => Command::Size(*w, *h),
            Command::ResetSize => Command::ResetSize,
            Command::Cut => Command::Cut,
            Command::BitImageFromBytesWithWidth(bytes, w) => {
                let copied = bytes.clone();
                proof {
                    assert(copied@ =~= bytes@);
                }
                Command::BitImageFromBytesWithWidth(copied, *w)
            },
        }
    }
}

/// A flat, fully primitive program: exactly what one print job writes to the
/// device, in order.
#[derive(Debug, PartialEq, Clone)]
pub struct Program(pub Vec<Command>);

impl View for Program {
    type V = Seq<CommandModel>;

    open spec fn view(&self) -> Seq<CommandModel> {
        commands_view(self.0@)
    }
}

/// A handle to one printer: its identity strings and the number of the actor
/// task that owns the device connection.  The runtime maps the actor number
/// to that actor's job queue; cloning the handle never spawns a new actor.
#[derive(Debug, PartialEq, Clone)]
pub struct Printer {
    pub name: String,
    pub description: String,
    /// Identifies the owning actor task; equal numbers mean the same queue.
    pub actor: u64,
}

/// Mathematical model of a printer handle.
pub struct PrinterModel {
    pub name: Seq<char>,
    pub description: Seq<char>,
    pub actor: u64,
}

impl View for Printer {
    type V = PrinterModel;

    open spec fn view(&self) -> PrinterModel {
        PrinterModel { name: self.name@, description: self.description@, actor: self.actor }
    }
}

impl Printer {
    /// A copy of this handle, pointing at the same actor.
    pub fn duplicate(&self) -> (r: Printer)
        ensures
            r@ == self@,
    {
        Printer {
            name: self.name.clone(),
            description: self.description.clone(),
            actor: self.actor,
        }
    }
}

/// An error reported back to a single job's caller.  A failing job never
/// terminates the actor; later jobs still run.
#[derive(Debug, PartialEq, Clone)]
pub enum Error {
    /// The device connection or a write to it failed.
    Printer(String),
    /// Network discovery failed.
    Discovery(String),
}

/// One unit of work for a printer actor.
#[derive(Debug, PartialEq, Clone)]
pub enum Job {
    /// Write this primitive program to the device.
    Print(Program),
    /// Ask the device for its model name.
    GetModelName,
}

/// Model of a job.
pub enum JobModel {
    Print(Seq<CommandModel>),
    GetModelName,
}

impl View for Job {
    type V = JobModel;

    open spec fn view(&self) -> JobModel {
        match self {
            Job::Print(p) => JobModel::Print(p@),
            Job::GetModelName => JobModel::GetModelName,
        }
    }
}

/// The queue owned by one printer actor.
///
/// `pending` holds the submitted-but-not-yet-executed jobs; the ghost
/// `history` records every job already handed out for execution, in the order
/// it was handed out.  Jobs are only ever appended at the back and taken from
/// the front, so execution order equals submission order.
pub struct JobQueue {
    pending: Vec<Job>,
    history: Ghost<Seq<JobModel>>,
}

impl JobQueue {
    /// All jobs ever submitted, in submission order.
    pub closed spec fn submitted(self) -> Seq<JobModel> {
        self.history@ + self.pending@.map_values(|j: Job| j@)
    }

    /// The jobs already handed out for execution, in execution order.
    pub closed spec fn executed(self) -> Seq<JobModel> {
        self.history@
    }

    /// The jobs still waiting, in submission order.
    pub closed spec fn waiting(self) -> Seq<JobModel> {
        self.pending@.map_values(|j: Job| j@)
    }

    pub fn new() -> (q: JobQueue)
        ensures
            q.executed() == Seq::<JobModel>::empty(),
            q.waiting() == Seq::<JobModel>::empty(),
    {
        JobQueue { pending: Vec::new(), history: Ghost(Seq::empty()) }
    }

    /// Append a job at the back of the queue.
    pub fn submit(&mut self, job: Job)
        ensures
            final(self).waiting() == old(self).waiting().push(job@),
            final(self).executed() == old(self).executed(),
            final(self).submitted() == old(self).submitted().push(job@),
    {
        let ghost j = job@;
        self.pending.push(job);
        proof {
            assert(self.pending@.map_values(|j: Job| j@) =~= old(
                self,
            ).pending@.map_values(|j: Job| j@).push(j));
            assert(self.submitted() =~= old(self).submitted().push(j));
        }
    }

    /// Hand out the next job for execution: always the oldest waiting job.
    pub fn take_next(&mut self) -> (job: Option<Job>)
        ensures
            old(self).waiting().len() == 0 ==> {
                &&& job is None
                &&& final(self).waiting() == old(self).waiting()
                &&& final(self).executed() == old(self).executed()
            },
            old(self).waiting().len() > 0 ==> {
                &&& job matches Some(j) && j@ == old(self).waiting()[0]
                &&& final(self).waiting() == old(self).waiting().drop_first()
                &&& final(self).executed() == old(self).executed().push(old(self).waiting()[0])
            },
            final(self).submitted() == old(self).submitted(),
    {
        if self.pending.len() == 0 {
            None
        } else {
            let job = self.pending.remove(0);
            let ghost j = job@;
            proof {
                self.history = Ghost(self.history@.push(j));
                assert(self.pending@.map_values(|j: Job| j@) =~= old(self).pending@.map_values(
                    |j: Job| j@,
                ).drop_first());
                assert(self.submitted() =~= old(self).submitted());
            }
            Some(job)
        }
    }

    /// How many jobs are still waiting.
    pub fn len(&self) -> (n: usize)
        ensures
            n == self.waiting().len(),
    {
        self.pending.len()
    }
}

/// First-in-first-out dispatch: at any point in an actor's life, the jobs it
/// has executed are exactly the earliest-submitted jobs, in submission order.
/// In particular, if two jobs were submitted with the first at position `i`
/// and the second at position `j > i`, and the later one has been executed,
/// then the earlier one was executed before it.
pub proof fn lemma_fifo_order(q: JobQueue, i: int, j: int)
    requires
        0 <= i < j < q.submitted().len(),
        j < q.executed().len(),
    ensures
        q.executed() == q.submitted().take(q.executed().len() as int),
        q.executed()[i] == q.submitted()[i],
        q.executed()[j] == q.submitted()[j],
{
    assert(q.executed() =~= q.submitted().take(q.executed().len() as int));
}

/// The raw identity reply a printer returns is one status byte followed by a
/// NUL-terminated name; this finds the end of the name: the index of the
/// first zero byte at or after index 1, or 81 when none occurs there.
pub open spec fn identity_name_end(bytes: Seq<u8>) -> int {
    match first_zero_from(bytes, 1) {
        Some(p) => p,
        None => 81,
    }
}

/// Index of the first zero byte at or after `i`, if any.
pub open spec fn first_zero_from(bytes: Seq<u8>, i: int) -> Option<int>
    decreases bytes.len() - i,
{
    if i < 0 || i >= bytes.len() {
        None
    } else if bytes[i] == 0 {
        Some(i)
    } else {
        first_zero_from(bytes, i + 1)
    }
}

/// The name bytes carried by an identity reply.
pub open spec fn identity_name_bytes(bytes: Seq<u8>) -> Seq<u8> {
    bytes.subrange(1, identity_name_end(bytes))
}

/// What lossy UTF-8 decoding makes of a byte sequence, invalid sequences
/// replaced: a function of the bytes alone.
pub uninterp spec fn utf8_lossy_of(bytes: Seq<u8>) -> Seq<char>;

/// Relies on String::from_utf8_lossy: the result is a function of the bytes
/// alone, and bytes that are valid UTF-8 are decoded exactly.
#[verifier::external_body]
fn utf8_lossy(bytes: &Vec<u8>) -> (r: String)
    ensures
        r@ == utf8_lossy_of(bytes@),
        vstd::utf8::valid_utf8(bytes@) ==> vstd::utf8::encode_utf8(r@) == bytes@,
{
    String::from_utf8_lossy(bytes).into_owned()
}

/// Decode the model name out of a raw 82-byte identity reply: the bytes
/// after the status byte, up to the first NUL (or at most 80 of them),
/// read as UTF-8 with invalid sequences replaced.
pub fn model_name_from_identity_reply(reply: &[u8]) -> (name: String)
    requires
        reply@.len() == 82,
    ensures
        name@ == utf8_lossy_of(identity_name_bytes(reply@)),
{
    let mut end: usize = 1;
    while end < 81 && reply[end] != 0
        invariant
            1 <= end <= 81,
            reply@.len() == 82,
            forall|k: int| 1 <= k < end ==> reply@[k] != 0,
        decreases 81 - end,
    {
        end += 1;
    }
    proof {
        if end < 81 {
            lemma_first_zero_found(reply@, 1, end as int);
        } else if reply@[81] == 0 {
            lemma_first_zero_absent(reply@, 1, 81);
            lemma_first_zero_found(reply@, 81, 81);
        } else {
            lemma_first_zero_absent(reply@, 1, 82);
        }
    }
    let mut name_bytes: Vec<u8> = Vec::new();
    let mut k: usize = 1;
    while k < end
        invariant
            1 <= k <= end,
            end <= 81,
            reply@.len() == 82,
            name_bytes@ == reply@.subrange(1, k as int),
        decreases end - k,
    {
        name_bytes.push(reply[k]);
        proof {
            assert(name_bytes@ =~= reply@.subrange(1, k + 1 as int));
        }
        k += 1;
    }
    proof {
        assert(name_bytes@ =~= identity_name_bytes(reply@));
    }
    utf8_lossy(&name_bytes)
}

proof fn lemma_first_zero_found(bytes: Seq<u8>, i: int, z: int)
    requires
        0 <= i <= z < bytes.len(),
        bytes[z] == 0,
        forall|k: int| i <= k < z ==> bytes[k] != 0,
    ensures
        first_zero_from(bytes, i) == Some(z),
    decreases z - i,
{
    if i < z {
        lemma_first_zero_found(bytes, i + 1, z);
    }
}

proof fn lemma_first_zero_absent(bytes: Seq<u8>, i: int, j: int)
    requires
        0 <= i <= j <= bytes.len(),
        forall|k: int| i <= k < j ==> bytes[k] != 0,
    ensures
        j == bytes.len() ==> first_zero_from(bytes, i) is None,
        j < bytes.len() ==> first_zero_from(bytes, i) == first_zero_from(bytes, j),
    decreases j - i,
{
    if i < j {
        lemma_first_zero_absent(bytes, i + 1, j);
    }
}

} // verus!
