use puffin::atoms::AgentName;
use puffin::error::{Error, FnError};
use puffin::hash_hs::HashAlgorithm;
use puffin::host::HostFn;
use puffin::knowledge::{Claim, TraceContext};
use puffin::once::OnceSlot;
use puffin::signature::Signature;
use puffin::term::Term;
use puffin::trace::{
    default_put_options, set_default_put_options, Action, Agent, AgentDescriptor, AgentRole,
    AgentState, ErrorTally, Put, PutDescriptor, PutFactory, PutName, PutOptions, PutOptionsAnchor,
    ProtocolBehavior, Step, Trace,
};
use puffin::transcript::{
    fn_client_finished_transcript, fn_server_hello_transcript, CLAIM_TRANSCRIPT_CH_SH,
};
use puffin::types::HostType;
use puffin::value::EvaluatedTerm;

/// A scripted program under test: it echoes a fixed output and queues
/// one claim per step.
struct ScriptedPut {
    pending_claims: Vec<Claim>,
    closed: bool,
}

impl Put for ScriptedPut {
    fn progress(&mut self) -> Result<(), String> {
        Ok(())
    }

    fn reset(&mut self, _descriptor: &AgentDescriptor) -> Result<(), String> {
        Ok(())
    }

    fn describe_state(&self) -> String {
        String::from("scripted")
    }

    fn inbound_write(&mut self, _bytes: &Vec<u8>) -> Result<(), String> {
        Ok(())
    }

    fn outbound_read(&mut self) -> Result<Vec<u8>, String> {
        Ok(vec![0xca, 0xfe])
    }

    fn is_state_successful(&self) -> bool {
        true
    }

    fn shutdown(&mut self) -> String {
        self.closed = true;
        String::from("closed")
    }

    fn version(&self) -> String {
        String::from("scripted-1")
    }

    fn drain_claims(&mut self) -> Vec<Claim> {
        std::mem::take(&mut self.pending_claims)
    }
}

struct ScriptedFactory {
    claim_kind: u64,
}

impl PutFactory for ScriptedFactory {
    type Target = ScriptedPut;

    fn create(&self, descriptor: &AgentDescriptor) -> Result<ScriptedPut, String> {
        Ok(ScriptedPut {
            pending_claims: vec![Claim {
                agent: descriptor.name,
                kind: self.claim_kind,
                data: EvaluatedTerm::new(HostType::Bytes, vec![1]),
            }],
            closed: false,
        })
    }
}

/// The scripted protocol: one frame per read, the opaque form kept as
/// knowledge, and a policy that flags claims of a reserved kind.
struct ScriptedProtocol;

const VIOLATION_KIND: u64 = 99;

impl ProtocolBehavior for ScriptedProtocol {
    fn deframe(buffer: &Vec<u8>) -> Vec<Vec<u8>> {
        if buffer.is_empty() {
            Vec::new()
        } else {
            vec![buffer.clone()]
        }
    }

    fn extract_knowledge(frame: &Vec<u8>) -> Result<Vec<EvaluatedTerm>, Error> {
        Ok(vec![EvaluatedTerm::new(HostType::U8, vec![frame[0]])])
    }

    fn policy(claims: &Vec<Claim>) -> Option<String> {
        for c in claims {
            if c.kind == VIOLATION_KIND {
                return Some(String::from("reserved claim observed"));
            }
        }
        None
    }
}

fn scripted_descriptor() -> AgentDescriptor {
    AgentDescriptor {
        name: AgentName::first(),
        role: AgentRole::Server,
        version: 0x0304,
        put: PutDescriptor {
            name: PutName {
                chars: ['S', 'C', 'R', 'I', 'P', 'T', '_', '_', '_', '_'],
            },
            options: PutOptions::empty(),
        },
    }
}

#[test]
fn trace_executes_and_harvests_knowledge() {
    let mut sig = Signature::new();
    let finished = sig.new_function(HostFn::Finished);
    let trace = Trace {
        prior_traces: vec![],
        descriptors: vec![scripted_descriptor()],
        steps: vec![
            Step {
                agent: AgentName::first(),
                action: Action::Input(Term::Application(finished, vec![])),
            },
            Step {
                agent: AgentName::first(),
                action: Action::Output,
            },
        ],
    };
    let mut ctx = TraceContext::new();
    let factory = ScriptedFactory { claim_kind: 1 };
    let outcome = trace.execute::<ScriptedProtocol, ScriptedFactory>(&mut ctx, &factory);
    assert!(outcome.is_ok());
    // the output step retained both the extracted item and the opaque form
    assert_eq!(ctx.knowledge.len(), 2);
    assert_eq!(ctx.knowledge[1].data.bytes, vec![0xca, 0xfe]);
    assert_eq!(ctx.claims.len(), 1);
}

#[test]
fn security_violation_stops_the_trace_and_keeps_earlier_output() {
    let mut sig = Signature::new();
    let finished = sig.new_function(HostFn::Finished);
    let trace = Trace {
        prior_traces: vec![],
        descriptors: vec![scripted_descriptor()],
        steps: vec![
            Step {
                agent: AgentName::first(),
                action: Action::Output,
            },
            Step {
                agent: AgentName::first(),
                action: Action::Input(Term::Application(finished, vec![])),
            },
        ],
    };
    let mut ctx = TraceContext::new();
    let factory = ScriptedFactory {
        claim_kind: VIOLATION_KIND,
    };
    match trace.execute::<ScriptedProtocol, ScriptedFactory>(&mut ctx, &factory) {
        Err(Error::SecurityClaim(msg)) => {
            assert_eq!(msg, "reserved claim observed");
        }
        other => panic!("expected a security violation, got {:?}", other),
    }
    // the offending step's outputs stay observable
    assert_eq!(ctx.knowledge.len(), 2);
    assert_eq!(ctx.claims.len(), 1);
}

#[test]
fn unknown_agents_fail_the_step() {
    let trace = Trace {
        prior_traces: vec![],
        descriptors: vec![scripted_descriptor()],
        steps: vec![Step {
            agent: AgentName::first().next(),
            action: Action::Output,
        }],
    };
    let mut ctx = TraceContext::new();
    let factory = ScriptedFactory { claim_kind: 1 };
    match trace.execute::<ScriptedProtocol, ScriptedFactory>(&mut ctx, &factory) {
        Err(Error::Agent(msg)) => assert_eq!(msg, "agent not found"),
        other => panic!("expected an agent error, got {:?}", other),
    }
}

/// A program under test that cannot be spawned.
struct FailingFactory;

impl PutFactory for FailingFactory {
    type Target = ScriptedPut;

    fn create(&self, _descriptor: &AgentDescriptor) -> Result<ScriptedPut, String> {
        Err(String::from("no such program"))
    }
}

#[test]
fn failing_factory_reports_put_error() {
    let trace = Trace {
        prior_traces: vec![],
        descriptors: vec![scripted_descriptor()],
        steps: vec![],
    };
    let mut ctx = TraceContext::new();
    match trace.execute::<ScriptedProtocol, FailingFactory>(&mut ctx, &FailingFactory) {
        Err(Error::Put(msg)) => assert_eq!(msg, "no such program"),
        other => panic!("expected a spawn failure, got {:?}", other),
    }
}

/// A program under test whose inbound stream always fails.
struct DeafPut;

impl Put for DeafPut {
    fn progress(&mut self) -> Result<(), String> {
        Ok(())
    }

    fn reset(&mut self, _descriptor: &AgentDescriptor) -> Result<(), String> {
        Ok(())
    }

    fn describe_state(&self) -> String {
        String::from("deaf")
    }

    fn inbound_write(&mut self, _bytes: &Vec<u8>) -> Result<(), String> {
        Err(String::from("stream torn down"))
    }

    fn outbound_read(&mut self) -> Result<Vec<u8>, String> {
        Ok(Vec::new())
    }

    fn is_state_successful(&self) -> bool {
        false
    }

    fn shutdown(&mut self) -> String {
        String::from("closed")
    }

    fn version(&self) -> String {
        String::from("deaf-1")
    }

    fn drain_claims(&mut self) -> Vec<Claim> {
        Vec::new()
    }
}

struct DeafFactory;

impl PutFactory for DeafFactory {
    type Target = DeafPut;

    fn create(&self, _descriptor: &AgentDescriptor) -> Result<DeafPut, String> {
        Ok(DeafPut)
    }
}

#[test]
fn failing_stream_reports_io_error() {
    let mut sig = Signature::new();
    let finished = sig.new_function(HostFn::Finished);
    let trace = Trace {
        prior_traces: vec![],
        descriptors: vec![scripted_descriptor()],
        steps: vec![Step {
            agent: AgentName::first(),
            action: Action::Input(Term::Application(finished, vec![])),
        }],
    };
    let mut ctx = TraceContext::new();
    match trace.execute::<ScriptedProtocol, DeafFactory>(&mut ctx, &DeafFactory) {
        Err(Error::IO(msg)) => assert_eq!(msg, "stream torn down"),
        other => panic!("expected a stream failure, got {:?}", other),
    }
}

#[test]
fn default_put_options_install_once() {
    let mut anchor: PutOptionsAnchor = OnceSlot::empty();
    let mut options = PutOptions::empty();
    options
        .options
        .push((String::from("seed"), String::from("1")));
    assert!(set_default_put_options(&mut anchor, options).is_ok());
    assert_eq!(default_put_options(&anchor).options.len(), 1);
    assert!(set_default_put_options(&mut anchor, PutOptions::empty()).is_err());
    assert_eq!(default_put_options(&anchor).options.len(), 1);
}

#[test]
fn transcript_claims_resolve_to_fixed_hashes() {
    let claims = vec![
        Claim {
            agent: AgentName::first(),
            kind: CLAIM_TRANSCRIPT_CH_SH,
            data: EvaluatedTerm::new(HostType::Bytes, vec![1, 1]),
        },
        Claim {
            agent: AgentName::first(),
            kind: CLAIM_TRANSCRIPT_CH_SH,
            data: EvaluatedTerm::new(HostType::Bytes, vec![2, 2]),
        },
    ];
    let hash = fn_server_hello_transcript(&claims).unwrap();
    assert_eq!(hash.algorithm(), HashAlgorithm::Sha256);
    // the latest claim of the kind wins
    assert_eq!(hash.get_current_hash_raw(), vec![2, 2]);

    match fn_client_finished_transcript(&claims) {
        Err(FnError::Unknown(msg)) => {
            assert_eq!(msg, "Failed to find CLAIM_TRANSCRIPT_CH_CLIENT_FIN transcript");
        }
        other => panic!("expected a missing transcript, got {:?}", other),
    }
}

#[test]
fn closed_agents_take_no_input() {
    let factory = ScriptedFactory { claim_kind: 1 };
    let put = factory.create(&scripted_descriptor()).unwrap();
    let mut agent = Agent {
        descriptor_name: AgentName::first(),
        put,
        state: AgentState::Ready,
    };
    assert!(agent.input(&vec![1, 2]).is_ok());
    let _ = agent.close();
    match agent.input(&vec![3]) {
        Err(Error::Agent(msg)) => assert_eq!(msg, "agent closed"),
        other => panic!("expected a lifecycle error, got {:?}", other),
    }
}

#[test]
fn tally_counts_non_fatal_kinds_only() {
    let mut tally = ErrorTally::new();
    assert!(!tally.record(&Error::IO(String::from("x"))));
    assert!(!tally.record(&Error::IO(String::from("y"))));
    assert!(!tally.record(&Error::Term(String::from("z"))));
    assert!(tally.record(&Error::SecurityClaim(String::from("finding"))));
    assert_eq!(tally.io, 2);
    assert_eq!(tally.term, 1);
    assert_eq!(tally.fn_errors, 0);
}

#[test]
fn error_messages_name_their_kind() {
    let e = Error::Fn(FnError::Crypto(String::from("bad tag")));
    assert_eq!(
        e.describe(),
        "error while evaluating a term or executing a function symbol: crypto error: bad tag"
    );
    assert_eq!(
        Error::Agent(String::from("agent closed")).describe(),
        "error regarding an agent: agent closed"
    );
    assert_eq!(
        Error::from(FnError::Malformed(String::from("x"))).describe(),
        "error while evaluating a term or executing a function symbol: malformed: x"
    );
    assert_eq!(
        Error::Extraction.describe(),
        "error while extracting knowledge"
    );
}
