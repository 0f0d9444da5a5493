//! Running commands: who runs them, and the record of what was run.

use crate::commands::Command;
use crate::text::{
    is_white_space, law_trimmed_end_stays, law_white_space_is_trimmed_off, texts, trim_end,
    trimmed_end, Text,
};
use vstd::prelude::*;
use vstd::string::*;
use vstd::utf8::*;

verus! {

/// One command that was run, and what it printed.
#[verifier::ext_equal]
pub struct Exchange {
    pub args: Command,
    pub output: Text,
}

/// The commands of a record.
pub open spec fn commands_of(log: Seq<Exchange>) -> Seq<Command> {
    Seq::new(log.len(), |i: int| log[i].args)
}

/// The outputs of a record.
pub open spec fn replies_of(log: Seq<Exchange>) -> Seq<Text> {
    Seq::new(log.len(), |i: int| log[i].output)
}

/// What was added to a record.
pub open spec fn added(before: Seq<Exchange>, after: Seq<Exchange>) -> Seq<Exchange> {
    after.skip(before.len() as int)
}

/// Nothing of a record was lost, and exactly these commands were run since, in this
/// order.
#[verifier::opaque]
pub open spec fn ran(
    before: Seq<Exchange>,
    after: Seq<Exchange>,
    commands: Seq<Command>,
) -> bool {
    &&& before.len() <= after.len()
    &&& after.take(before.len() as int) == before
    &&& commands_of(added(before, after)) == commands
}

/// The outputs since a record.
#[verifier::opaque]
pub open spec fn replies(before: Seq<Exchange>, after: Seq<Exchange>) -> Seq<Text> {
    replies_of(added(before, after))
}

/// Nothing was run.
pub proof fn lemma_ran_nothing(log: Seq<Exchange>)
    ensures
        ran(log, log, Seq::empty()),
        replies(log, log) == Seq::<Text>::empty(),
{
    reveal(ran);
    reveal(replies);
    assert(log.take(log.len() as int) =~= log);
    assert(commands_of(added(log, log)) =~= Seq::<Command>::empty());
    assert(replies(log, log) =~= Seq::<Text>::empty());
}

/// What was run in two parts was run.
pub proof fn lemma_ran_chain(
    first: Seq<Exchange>,
    second: Seq<Exchange>,
    third: Seq<Exchange>,
    commands: Seq<Command>,
    more: Seq<Command>,
)
    requires
        ran(first, second, commands),
        ran(second, third, more),
    ensures
        ran(first, third, commands + more),
        replies(first, third) == replies(first, second) + replies(second, third),
        replies(first, second).len() == commands.len(),
        replies(second, third).len() == more.len(),
{
    reveal(ran);
    reveal(replies);
    assert(third.take(first.len() as int) =~= second.take(first.len() as int));
    assert forall|i: int| first.len() <= i < second.len() implies third[i] == second[i] by {
        assert(third.take(second.len() as int)[i] == second[i]);
    }
    assert(commands_of(added(first, third)) =~= commands + more) by {
        assert(commands_of(added(first, second)) == commands);
        assert(commands_of(added(second, third)) == more);
    }
    assert(replies(first, third) =~= replies(first, second) + replies(second, third));
    assert(commands.len() == commands_of(added(first, second)).len());
    assert(more.len() == commands_of(added(second, third)).len());
}

/// One more command was run.
pub proof fn lemma_ran_one(
    first: Seq<Exchange>,
    second: Seq<Exchange>,
    commands: Seq<Command>,
    exchange: Exchange,
)
    requires
        ran(first, second, commands),
    ensures
        ran(first, second.push(exchange), commands.push(exchange.args)),
        replies(first, second.push(exchange)) == replies(first, second).push(exchange.output),
        replies(first, second).len() == commands.len(),
{
    reveal(ran);
    reveal(replies);
    let third = second.push(exchange);
    assert(third.take(second.len() as int) =~= second);
    assert(commands_of(added(second, third)) =~= seq![exchange.args]);
    lemma_ran_chain(first, second, third, commands, seq![exchange.args]);
    assert(commands + seq![exchange.args] =~= commands.push(exchange.args));
    assert(replies(second, third) =~= seq![exchange.output]);
    assert(replies(first, third) =~= replies(first, second).push(exchange.output));
}

/// Runs commands.
pub trait Executor {
    /// The commands that were run so far. An implementation says where it keeps them;
    /// one that does not say so cannot show what `execute` promises.
    closed spec fn history(&self) -> Seq<Exchange> {
        Seq::empty()
    }

    /// Runs a command, which has to name a program, and returns what it printed.
    fn execute(&mut self, args: Vec<String>) -> (output: String)
        requires
            args@.len() > 0,
        ensures
            final(self).history() == old(self).history().push(
                (Exchange { args: texts(args@), output: output@ }),
            ),
    ;

    /// The command that was run last.
    fn last_executed(&self) -> (last: Option<Vec<String>>)
        ensures
            self.history().len() == 0 ==> last is None,
            self.history().len() > 0 ==> last is Some && texts(last->0@)
                == self.history().last().args,
    ;
}

/// Starts programs. Whatever a program prints, the shell below is right about it, so
/// nothing is asked of an implementation.
pub trait Process {
    /// Runs a program with its arguments to its end, and returns the bytes that it
    /// printed.
    fn output(&mut self, args: &Vec<String>) -> Vec<u8>
        requires
            args@.len() > 0,
    ;
}

/// The text of some bytes, with what is not valid UTF-8 replaced.
pub uninterp spec fn lossy_text(bytes: Seq<u8>) -> Seq<char>;

/// Calls `String::from_utf8_lossy`. The result depends on the bytes alone, and is
/// their text if they are valid UTF-8.
#[verifier::external_body]
fn from_utf8_lossy(bytes: &[u8]) -> (text: String)
    ensures
        text@ == lossy_text(bytes@),
        valid_utf8(bytes@) ==> text@ == decode_utf8(bytes@),
{
    String::from_utf8_lossy(bytes).into_owned()
}

/// What counts as the output of a program that printed some bytes.
pub open spec fn output_text(printed: Seq<u8>) -> Text {
    trimmed_end(lossy_text(printed))
}

/// Turns the bytes that a program printed into its output: their text, without the
/// white space at its end.
pub fn program_output(printed: &[u8]) -> (output: String)
    ensures
        output@ == output_text(printed@),
        valid_utf8(printed@) ==> output@ == trimmed_end(decode_utf8(printed@)),
        trimmed_end(output@) == output@,
{
    let text = from_utf8_lossy(printed);
    proof {
        law_trimmed_end_stays(text@);
    }
    trim_end(text.as_str())
}

/// A record that keeps the last command at hand.
pub struct Record {
    executed: Option<Vec<String>>,
    log: Ghost<Seq<Exchange>>,
}

impl Record {
    #[verifier::type_invariant]
    spec fn last_is_kept(&self) -> bool {
        match self.executed {
            None => self.log@.len() == 0,
            Some(args) => self.log@.len() > 0 && texts(args@) == self.log@.last().args,
        }
    }
}

/// The shell that runs programs on this machine.
pub struct RealShell<P: Process> {
    process: P,
    record: Record,
}

impl<P: Process> RealShell<P> {
    /// What starts the programs of this shell.
    pub closed spec fn process(&self) -> P {
        self.process
    }

    /// A shell that has not run anything yet.
    pub fn new(process: P) -> (shell: RealShell<P>)
        ensures
            shell.history() == Seq::<Exchange>::empty(),
            shell.process() == process,
    {
        RealShell { process, record: Record { executed: None, log: Ghost(Seq::empty()) } }
    }

    /// Takes over what a command printed.
    pub fn finish(&mut self, args: Vec<String>, printed: &[u8]) -> (output: String)
        ensures
            output@ == output_text(printed@),
            trimmed_end(output@) == output@,
            valid_utf8(printed@) ==> output@ == trimmed_end(decode_utf8(printed@)),
            final(self).history() == old(self).history().push(
                (Exchange { args: texts(args@), output: output@ }),
            ),
            final(self).process() == old(self).process(),
    {
        let output = program_output(printed);
        let ghost log = self.record.log@.push(
            Exchange { args: texts(args@), output: output@ },
        );
        self.record = Record { executed: Some(args), log: Ghost(log) };
        output
    }
}

impl<P: Process> Executor for RealShell<P> {
    closed spec fn history(&self) -> Seq<Exchange> {
        self.record.log@
    }

    /// Runs the program once, and takes over what it printed: one run, with these
    /// arguments, leads from what starts the programs before to what it is after.
    fn execute(&mut self, args: Vec<String>) -> (output: String)
        ensures
            exists|process: &mut P, printed: Vec<u8>|
                #![trigger call_ensures(P::output, (process, &args), printed)]
                {
                    &&& *process == old(self).process()
                    &&& *final(process) == final(self).process()
                    &&& call_ensures(P::output, (process, &args), printed)
                    &&& output@ == output_text(printed@)
                },
            trimmed_end(output@) == output@,
    {
        let printed = self.process.output(&args);
        self.finish(args, printed.as_slice())
    }

    fn last_executed(&self) -> (last: Option<Vec<String>>) {
        proof {
            use_type_invariant(&self.record);
        }
        copied(&self.record.executed)
    }
}

/// Copies an optional list of strings.
fn copied(list: &Option<Vec<String>>) -> (copy: Option<Vec<String>>)
    ensures
        copy is Some == list is Some,
        list is Some ==> texts(copy->0@) == texts(list->0@),
{
    match list {
        Some(list) => {
            let mut copy: Vec<String> = Vec::new();
            let mut i: usize = 0;
            while i < list.len()
                invariant
                    i <= list@.len(),
                    copy@.len() == i,
                    forall|j: int| 0 <= j < i ==> copy@[j]@ == (#[trigger] list@[j])@,
                decreases list@.len() - i,
            {
                copy.push(list[i].clone());
                i += 1;
            }
            assert(texts(copy@) =~= texts(list@));
            Some(copy)
        },
        None => None,
    }
}

/// The record grows at its end: what was run is added to it, command by command, each with
/// what it printed, and nothing of it is lost.
pub proof fn law_record_grows(
    before: Seq<Exchange>,
    after: Seq<Exchange>,
    commands: Seq<Command>,
    i: int,
)
    requires
        ran(before, after, commands),
    ensures
        after.len() == before.len() + commands.len(),
        0 <= i < before.len() ==> after[i] == before[i],
        0 <= i < commands.len() ==> after[before.len() + i].args == commands[i],
        0 <= i < commands.len() ==> after[before.len() + i].output == replies(before, after)[i],
        replies(before, after).len() == commands.len(),
{
    reveal(ran);
    reveal(replies);
    let more = added(before, after);
    assert(commands_of(more).len() == commands.len());
    if 0 <= i < before.len() {
        assert(after.take(before.len() as int)[i] == after[i]);
    }
    if 0 <= i < commands.len() {
        assert(commands_of(more)[i] == more[i].args);
        assert(more[i] == after[before.len() + i]);
    }
}

/// The output of a program is the text that it printed up to the last character that is no
/// white space.
pub proof fn law_output_ends_before_the_white_space(printed: Seq<u8>, text: Text, white: Text)
    requires
        lossy_text(printed) == text + white,
        text.len() > 0 ==> !is_white_space(text.last()),
        forall|i: int| 0 <= i < white.len() ==> is_white_space(#[trigger] white[i]),
    ensures
        output_text(printed) == text,
{
    law_white_space_is_trimmed_off(text, white);
}

} // verus!
