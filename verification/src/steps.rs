//! The resolution as a sequence of steps. Each step names what is to be read
//! next; the content that was read decides the step that follows. A caller
//! that reads only what a step asks for reads no source in vain.
use vstd::prelude::*;
use crate::error::HostIdError;
use crate::interfaces::{list_interfaces, Interface};
use crate::resolver::{
    address_from_table, bytes_view, file_identifier, host_identifier, identifier_from_address,
    identifier_from_file, identifier_from_loopback, list_view, loopback_identifier, table_address,
    text_identifier, text_view, trim_text, Sources, SourcesView,
};
use crate::text::{chars_of, trimmed};

verus! {

/// Where the resolution stands.
#[derive(Clone, Debug, PartialEq, Eq)]
pub enum Step {
    /// The identifier file is to be read.
    ReadIdentifier,
    /// The first source of the host name is to be read.
    ReadPrimaryHostname,
    /// The second source of the host name is to be read.
    ReadSecondaryHostname,
    /// The hosts table is to be read. The step holds the trimmed host name.
    ReadHosts(String),
    /// The system is to be asked for its interfaces.
    QueryLoopback,
    /// The identifier is found.
    Done(String),
    /// There is no identifier.
    Failed(HostIdError),
}

/// A step, with its text as a sequence.
pub enum StepView {
    ReadIdentifier,
    ReadPrimaryHostname,
    ReadSecondaryHostname,
    ReadHosts(Seq<char>),
    QueryLoopback,
    Done(Seq<char>),
    Failed(HostIdError),
}

impl View for Step {
    type V = StepView;

    open spec fn view(&self) -> StepView {
        match self {
            Step::ReadIdentifier => StepView::ReadIdentifier,
            Step::ReadPrimaryHostname => StepView::ReadPrimaryHostname,
            Step::ReadSecondaryHostname => StepView::ReadSecondaryHostname,
            Step::ReadHosts(name) => StepView::ReadHosts(name@),
            Step::QueryLoopback => StepView::QueryLoopback,
            Step::Done(id) => StepView::Done(id@),
            Step::Failed(e) => StepView::Failed(*e),
        }
    }
}

/// The last step of a resolution that ended with `outcome`.
pub open spec fn finished(outcome: Result<Seq<char>, HostIdError>) -> StepView {
    match outcome {
        Ok(id) => StepView::Done(id),
        Err(e) => StepView::Failed(e),
    }
}

/// The step after the identifier file was read: done where the file gives an
/// identifier, failed where it is too short, and on to the host name where
/// there is no file.
pub open spec fn identifier_step(content: Option<Seq<u8>>) -> StepView {
    match file_identifier(content) {
        Err(HostIdError::MissingIdentifierFile) => StepView::ReadPrimaryHostname,
        outcome => finished(outcome),
    }
}

/// The step after the first source of the host name was read.
pub open spec fn primary_hostname_step(content: Option<Seq<char>>) -> StepView {
    match content {
        Some(text) => StepView::ReadHosts(trimmed(text)),
        None => StepView::ReadSecondaryHostname,
    }
}

/// The step after the second source of the host name was read.
pub open spec fn secondary_hostname_step(content: Option<Seq<char>>) -> StepView {
    match content {
        Some(text) => StepView::ReadHosts(trimmed(text)),
        None => StepView::Failed(HostIdError::NoHostnameSource),
    }
}

/// The step after the hosts table was read: finished where the table gives an
/// address for the host name, else on to the loopback interface.
pub open spec fn hosts_step(hostname: Seq<char>, content: Option<Seq<char>>) -> StepView {
    match table_address(content, hostname) {
        Some(address) => finished(text_identifier(address)),
        None => StepView::QueryLoopback,
    }
}

/// The step after the system was asked for its interfaces.
pub open spec fn loopback_step(interfaces: Option<Seq<Interface>>) -> StepView {
    finished(loopback_identifier(interfaces))
}

/// The step that follows `step` where what it asks for is answered from `s`.
/// A finished resolution stays as it is.
pub open spec fn next(step: StepView, s: SourcesView) -> StepView {
    match step {
        StepView::ReadIdentifier => identifier_step(s.identifier),
        StepView::ReadPrimaryHostname => primary_hostname_step(s.primary_hostname),
        StepView::ReadSecondaryHostname => secondary_hostname_step(s.secondary_hostname),
        StepView::ReadHosts(hostname) => hosts_step(hostname, s.hosts),
        StepView::QueryLoopback => loopback_step(s.interfaces),
        StepView::Done(id) => StepView::Done(id),
        StepView::Failed(e) => StepView::Failed(e),
    }
}

/// An upper bound on the number of steps that are still to come.
pub open spec fn remaining(step: StepView) -> nat {
    match step {
        StepView::ReadIdentifier => 5,
        StepView::ReadPrimaryHostname => 4,
        StepView::ReadSecondaryHostname => 3,
        StepView::ReadHosts(_) => 2,
        StepView::QueryLoopback => 1,
        StepView::Done(_) => 0,
        StepView::Failed(_) => 0,
    }
}

/// The outcome of the resolution that goes on from `step`, each step answered
/// from `s`.
pub open spec fn outcome_from(step: StepView, s: SourcesView) -> Result<Seq<char>, HostIdError>
    decreases remaining(step),
{
    match step {
        StepView::Done(id) => Ok(id),
        StepView::Failed(e) => Err(e),
        _ => outcome_from(next(step, s), s),
    }
}

/// Every step that is not the last brings the resolution nearer to its end.
pub proof fn lemma_next_decreases(step: StepView, s: SourcesView)
    requires
        remaining(step) > 0,
    ensures
        remaining(next(step, s)) < remaining(step),
{
}

/// Step by step, the resolution arrives at the identifier that the sources
/// give as a whole.
pub proof fn lemma_steps_reach_identifier(s: SourcesView)
    ensures
        outcome_from(StepView::ReadIdentifier, s) == host_identifier(s),
{
    reveal_with_fuel(outcome_from, 6);
}

impl Step {
    /// The first step: the identifier file is to be read.
    pub fn start() -> (r: Step)
        ensures
            r@ == StepView::ReadIdentifier,
    {
        Step::ReadIdentifier
    }

    /// The step that ends the resolution with `outcome`.
    pub fn finish(outcome: Result<String, HostIdError>) -> (r: Step)
        ensures
            match outcome {
                Ok(id) => r@ == StepView::Done(id@),
                Err(e) => r@ == StepView::Failed(e),
            },
    {
        match outcome {
            Ok(id) => Step::Done(id),
            Err(e) => Step::Failed(e),
        }
    }

    /// The step after the identifier file was read; `content` is `None` where
    /// the file is not there.
    pub fn after_identifier(content: Option<&[u8]>) -> (r: Step)
        ensures
            r@ == identifier_step(bytes_view(content)),
    {
        match identifier_from_file(content) {
            Err(HostIdError::MissingIdentifierFile) => Step::ReadPrimaryHostname,
            outcome => Step::finish(outcome),
        }
    }

    /// The step after the first source of the host name was read.
    pub fn after_primary_hostname(content: Option<&str>) -> (r: Step)
        ensures
            r@ == primary_hostname_step(text_view(content)),
    {
        match content {
            Some(text) => Step::ReadHosts(trim_text(text)),
            None => Step::ReadSecondaryHostname,
        }
    }

    /// The step after the second source of the host name was read.
    pub fn after_secondary_hostname(content: Option<&str>) -> (r: Step)
        ensures
            r@ == secondary_hostname_step(text_view(content)),
    {
        match content {
            Some(text) => Step::ReadHosts(trim_text(text)),
            None => Step::Failed(HostIdError::NoHostnameSource),
        }
    }

    /// The step after the hosts table was read, for the trimmed host name
    /// `hostname`.
    pub fn after_hosts(hostname: &str, content: Option<&str>) -> (r: Step)
        ensures
            r@ == hosts_step(hostname@, text_view(content)),
    {
        match address_from_table(content, hostname) {
            Some(address) => {
                let chars = chars_of(address.as_str());
                Step::finish(identifier_from_address(chars.as_slice()))
            },
            None => Step::QueryLoopback,
        }
    }

    /// The step after the system was asked for its interfaces; `interfaces`
    /// is `None` where it gave no answer.
    pub fn after_loopback(interfaces: Option<&[Interface]>) -> (r: Step)
        ensures
            r@ == loopback_step(list_view(interfaces)),
    {
        Step::finish(identifier_from_loopback(interfaces))
    }

    /// Asks the system for its interfaces and takes the step that its answer
    /// decides. Whatever the system answers, the resolution is finished.
    pub fn query_loopback() -> (r: Step)
        ensures
            exists|answer: Option<Seq<Interface>>| r@ == loopback_step(answer),
            remaining(r@) == 0,
    {
        match list_interfaces() {
            Ok(list) => {
                let r = Step::after_loopback(Some(list.as_slice()));
                assert(r@ == loopback_step(Some(list@)));
                r
            },
            Err(_) => {
                let r = Step::after_loopback(None);
                assert(r@ == loopback_step(None));
                r
            },
        }
    }

    /// The step that follows where what this step asks for is taken from
    /// `sources`.
    pub fn advance(&self, sources: &Sources) -> (r: Step)
        ensures
            r@ == next(self@, sources@),
    {
        match self {
            Step::ReadIdentifier => {
                match &sources.identifier {
                    Some(bytes) => Step::after_identifier(Some(bytes.as_slice())),
                    None => Step::after_identifier(None),
                }
            },
            Step::ReadPrimaryHostname => {
                match &sources.primary_hostname {
                    Some(text) => Step::after_primary_hostname(Some(text.as_str())),
                    None => Step::after_primary_hostname(None),
                }
            },
            Step::ReadSecondaryHostname => {
                match &sources.secondary_hostname {
                    Some(text) => Step::after_secondary_hostname(Some(text.as_str())),
                    None => Step::after_secondary_hostname(None),
                }
            },
            Step::ReadHosts(hostname) => {
                match &sources.hosts {
                    Some(text) => Step::after_hosts(hostname.as_str(), Some(text.as_str())),
                    None => Step::after_hosts(hostname.as_str(), None),
                }
            },
            Step::QueryLoopback => {
                match &sources.interfaces {
                    Some(list) => Step::after_loopback(Some(list.as_slice())),
                    None => Step::after_loopback(None),
                }
            },
            Step::Done(id) => Step::Done(id.clone()),
            Step::Failed(e) => Step::Failed(*e),
        }
    }
}

} // verus!
