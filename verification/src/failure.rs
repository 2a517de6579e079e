//! Why something could not be done.
use crate::text::texts;
use vstd::prelude::*;

verus! {

/// The part of git that an error comes from, as far as the rules tell parts apart.
#[derive(Clone, Copy, Debug, PartialEq, Eq, Structural)]
pub enum ErrorClass {
    /// The operating system.
    Os,
    /// The object database.
    Odb,
    /// The network.
    Net,
    /// The SSH transport.
    Ssh,
    /// Any other part.
    Other,
}

/// What went wrong, as far as the rules tell causes apart.
#[derive(Clone, Copy, Debug, PartialEq, Eq, Structural)]
pub enum ErrorCode {
    /// The requested object does not exist.
    NotFound,
    /// Another process holds the lock.
    Locked,
    /// Authentication failed.
    Auth,
    /// Any other cause.
    Other,
}

/// An error of a single operation on a repository or on the disk.
#[derive(Debug)]
pub struct Fault {
    pub class: ErrorClass,
    pub code: ErrorCode,
    pub message: String,
}

/// What a [`Fault`] says, as a value.
pub struct FaultView {
    pub class: ErrorClass,
    pub code: ErrorCode,
    pub message: Seq<char>,
}

impl View for Fault {
    type V = FaultView;

    open spec fn view(&self) -> FaultView {
        FaultView { class: self.class, code: self.code, message: self.message@ }
    }
}

impl FaultView {
    /// Whether the error says that an object is missing from the object database.
    pub open spec fn missing_object(self) -> bool {
        self.class == ErrorClass::Odb && self.code == ErrorCode::NotFound
    }
}

impl Fault {
    /// Whether the error says that an object is missing from the object database.
    pub fn missing_object(&self) -> (b: bool)
        ensures
            b == self@.missing_object(),
    {
        self.class == ErrorClass::Odb && self.code == ErrorCode::NotFound
    }
}

/// A failed task: what could not be done, and what caused it, the nearest cause first.
#[derive(Debug)]
pub struct Failure {
    pub message: String,
    pub causes: Vec<String>,
}

impl View for Failure {
    type V = Seq<Seq<char>>;

    open spec fn view(&self) -> Seq<Seq<char>> {
        seq![self.message@] + texts(self.causes@)
    }
}

impl Failure {
    /// A failure without a known cause.
    pub fn new(message: String) -> (failure: Failure)
        ensures
            failure@ == seq![message@],
    {
        let failure = Failure { message, causes: Vec::new() };
        assert(failure@ =~= seq![failure.message@]);
        failure
    }

    /// The same failure as the cause of a larger one.
    pub fn context(self, message: String) -> (failure: Failure)
        ensures
            failure@ == seq![message@] + self@,
    {
        let mut causes = self.causes;
        causes.insert(0, self.message);
        let failure = Failure { message, causes };
        assert(texts(causes@) =~= self@);
        failure
    }

    /// The text that shows the failure: what could not be done on the first line, then a line
    /// for each cause.
    pub fn describe(&self) -> (text: String)
        ensures
            text@ == description(self@),
    {
        let mut text = "Error: ".to_owned();
        text.append(self.message.as_str());
        text.append("\n");
        assert(texts(self.causes@).take(0) =~= Seq::<Seq<char>>::empty());
        let mut i: usize = 0;
        while i < self.causes.len()
            invariant
                i <= self.causes@.len(),
                text@ == "Error: "@ + self.message@ + "\n"@ + cause_lines(
                    texts(self.causes@).take(i as int),
                ),
            decreases self.causes@.len() - i,
        {
            let ghost before = texts(self.causes@).take(i as int);
            let ghost start = "Error: "@ + self.message@ + "\n"@;
            text.append("  Caused by: ");
            text.append(self.causes[i].as_str());
            text.append("\n");
            i = i + 1;
            proof {
                let now = texts(self.causes@).take(i as int);
                assert(now.drop_last() =~= before);
                assert(now.last() == self.causes@[i - 1]@);
                assert(text@ =~= start + (cause_lines(before) + "  Caused by: "@
                    + self.causes@[i - 1]@ + "\n"@));
            }
        }
        proof {
            assert(texts(self.causes@).take(i as int) =~= texts(self.causes@));
            assert(self@.skip(1) =~= texts(self.causes@));
        }
        text
    }
}

/// A line for each cause.
pub open spec fn cause_lines(causes: Seq<Seq<char>>) -> Seq<char>
    decreases causes.len(),
{
    if causes.len() == 0 {
        seq![]
    } else {
        cause_lines(causes.drop_last()) + "  Caused by: "@ + causes.last() + "\n"@
    }
}

/// The text that shows a failure, given its messages, the outermost first.
pub open spec fn description(messages: Seq<Seq<char>>) -> Seq<char> {
    "Error: "@ + messages[0] + "\n"@ + cause_lines(messages.skip(1))
}

/// A result with its failure as a value.
pub open spec fn outcome<T>(result: Result<T, Failure>) -> Result<T, Seq<Seq<char>>> {
    match result {
        Ok(value) => Ok(value),
        Err(failure) => Err(failure@),
    }
}

/// A failure is shown by its message on a line, and each further cause adds a line.
pub proof fn law_each_cause_adds_a_line(messages: Seq<Seq<char>>, cause: Seq<char>)
    requires
        messages.len() > 0,
    ensures
        description(seq![messages[0]]) == "Error: "@ + messages[0] + "\n"@,
        description(messages.push(cause)) == description(messages) + ("  Caused by: "@ + cause
            + "\n"@),
{
    assert(seq![messages[0]].skip(1) =~= seq![]);
    assert(description(seq![messages[0]]) =~= "Error: "@ + messages[0] + "\n"@);
    assert(messages.push(cause).skip(1).drop_last() =~= messages.skip(1));
    assert(description(messages.push(cause)) =~= description(messages) + ("  Caused by: "@ + cause
        + "\n"@));
}

/// A failure says its message first, then its causes in order; an outcome says the same as the
/// result that it comes from, and an error keeps its class, code and message.
pub proof fn law_failures_are_seen_whole(
    failure: Failure,
    result: Result<(), Failure>,
    fault: Fault,
)
    ensures
        failure@.len() == failure.causes@.len() + 1,
        failure@[0] == failure.message@,
        forall|i: int| 0 <= i < failure.causes@.len() ==> failure@[i + 1] == (
        #[trigger] failure.causes@[i])@,
        match result {
            Ok(_) => outcome(result) is Ok,
            Err(failure) => outcome(result) == Err::<(), Seq<Seq<char>>>(failure@),
        },
        fault@.class == fault.class,
        fault@.code == fault.code,
        fault@.message == fault.message@,
{
}

/// An object is missing exactly where the object database says that it was not found.
pub proof fn law_what_a_missing_object_is(fault: FaultView)
    ensures
        fault.missing_object() ==> fault.class == ErrorClass::Odb,
        fault.missing_object() ==> fault.code == ErrorCode::NotFound,
        fault.class == ErrorClass::Odb && fault.code == ErrorCode::NotFound
            ==> fault.missing_object(),
{
}

/// A failure that becomes the cause of a larger one stays behind it as it was.
pub proof fn law_causes_are_kept(
    failure: Failure,
    message: String,
    larger: Failure,
    alone: Failure,
)
    requires
        call_ensures(Failure::context, (failure, message), larger),
        call_ensures(Failure::new, (message,), alone),
    ensures
        larger@[0] == message@,
        larger@.skip(1) == failure@,
        alone@ == seq![message@],
{
    assert(larger@.skip(1) =~= failure@);
}

} // verus!
