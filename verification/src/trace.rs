use vstd::prelude::*;
use crate::atoms::AgentName;
use crate::error::Error;
use crate::knowledge::{Claim, Knowledge, KnowledgeView, TraceContext};
use crate::once::OnceSlot;
use crate::term::{Term, spec_eval_matches};
use crate::types::HostType;
use crate::value::{EvaluatedTerm, EvaluatedTermView};

verus! {

/// A fixed-width identifier naming a program-under-test factory.
#[derive(Debug, Clone, Copy)]
pub struct PutName {
    pub chars: [char; 10],
}

/// String-keyed options handed to a program-under-test factory.
#[derive(Debug)]
pub struct PutOptions {
    /// Key and value pairs, in the order they were given.
    pub options: Vec<(String, String)>,
}

impl PutOptions {
    /// No options.
    pub fn empty() -> (r: PutOptions)
        ensures
            r.options@.len() == 0,
    {
        PutOptions { options: Vec::new() }
    }
}

/// Which program under test to spawn, and with what options.
#[derive(Debug)]
pub struct PutDescriptor {
    pub name: PutName,
    pub options: PutOptions,
}

/// The protocol role an agent plays.
#[derive(Debug, Clone, Copy, PartialEq, Eq, Structural)]
pub enum AgentRole {
    Client,
    Server,
}

/// Declares an agent: its name, role, protocol version preference, and
/// the program under test standing behind it.
#[derive(Debug)]
pub struct AgentDescriptor {
    pub name: AgentName,
    pub role: AgentRole,
    /// The preferred protocol version, as its wire identifier.
    pub version: u16,
    pub put: PutDescriptor,
}

/// What a step does: feed an evaluated recipe into the agent, or pump
/// the agent's output into the knowledge base.
#[derive(Debug)]
pub enum Action {
    /// Evaluate the recipe and write it into the agent's inbound
    /// stream.
    Input(Term),
    /// Read the agent's outbound stream and extract knowledge.
    Output,
}

/// One step of a trace, dispatched to the named agent.
#[derive(Debug)]
pub struct Step {
    pub agent: AgentName,
    pub action: Action,
}

/// The fuzzer's input unit: declared agents and an ordered list of
/// steps, together with prior traces executed first for composition.
#[derive(Debug)]
pub struct Trace {
    pub prior_traces: Vec<Trace>,
    pub descriptors: Vec<AgentDescriptor>,
    pub steps: Vec<Step>,
}

/// The lifecycle of an agent within one trace execution.
#[derive(Debug, Clone, Copy, PartialEq, Eq, Structural)]
pub enum AgentState {
    New,
    Ready,
    Reading,
    Writing,
    Closed,
}

/// The narrow stream interface of a program under test. The library
/// states nothing about what an implementation does; the engine's
/// contract holds for every implementation.
pub trait Put {
    /// Drives the program one unit of work.
    fn progress(&mut self) -> Result<(), String>;

    /// Resets the program to serve the given agent anew.
    fn reset(&mut self, descriptor: &AgentDescriptor) -> Result<(), String>;

    /// A human-readable description of the program's state.
    fn describe_state(&self) -> String;

    /// Writes bytes into the program's inbound stream.
    fn inbound_write(&mut self, bytes: &Vec<u8>) -> Result<(), String>;

    /// Reads whatever the program has written to its outbound stream.
    fn outbound_read(&mut self) -> Result<Vec<u8>, String>;

    /// Whether the program reached a successful protocol state.
    fn is_state_successful(&self) -> bool;

    /// Tears the program down; returns a closing description.
    fn shutdown(&mut self) -> String;

    /// The program's version string.
    fn version(&self) -> String;

    /// Removes and returns the claims the program has queued.
    fn drain_claims(&mut self) -> Vec<Claim>;
}

/// Spawns programs under test for agent descriptors.
pub trait PutFactory {
    /// The kind of program this factory spawns.
    type Target: Put;

    /// Spawns a program for the descriptor.
    fn create(&self, descriptor: &AgentDescriptor) -> Result<Self::Target, String>;
}

/// The protocol-specific collaborators of the engine: deframing raw
/// bytes into opaque messages, extracting knowledge from them, and the
/// security policy over accumulated claims.
pub trait ProtocolBehavior {
    /// Splits raw stream bytes into zero or more opaque messages.
    fn deframe(buffer: &Vec<u8>) -> Vec<Vec<u8>>;

    /// Decomposes an opaque message into typed knowledge items.
    fn extract_knowledge(frame: &Vec<u8>) -> Result<Vec<EvaluatedTerm>, Error>;

    /// Reports a violation over the accumulated claims, if any.
    fn policy(claims: &Vec<Claim>) -> Option<String>;
}

/// An agent: its descriptor, its program under test, and its lifecycle
/// state.
pub struct Agent<P: Put> {
    pub descriptor_name: AgentName,
    pub put: P,
    pub state: AgentState,
}

impl<P: Put> Agent<P> {
    /// Feeds evaluated bytes into the agent and drives the program one
    /// unit: a closed agent takes no input; a stream failure is an
    /// `IO` error, a failure to drive the program a `Put` error.
    pub fn input(&mut self, bytes: &Vec<u8>) -> (r: Result<(), Error>)
        ensures
            final(self).descriptor_name == old(self).descriptor_name,
            old(self).state is Closed ==> final(self).state == old(self).state && (
            r matches Err(Error::Agent(m)) && m@ == "agent closed"@),
            !(old(self).state is Closed) ==> match r {
                Ok(_) => final(self).state is Writing,
                Err(e) => final(self).state == old(self).state && (e matches Error::IO(_)
                    || e matches Error::Put(_)),
            },
    {
        if matches!(self.state, AgentState::Closed) {
            return Err(Error::Agent(String::from_str("agent closed")));
        }
        match self.put.inbound_write(bytes) {
            Ok(_) => {},
            Err(msg) => {
                return Err(Error::IO(msg));
            },
        }
        match self.put.progress() {
            Ok(_) => {},
            Err(msg) => {
                return Err(Error::Put(msg));
            },
        }
        self.state = AgentState::Writing;
        Ok(())
    }

    /// Tears the agent down: the program is shut down and the agent
    /// takes no further input.
    pub fn close(&mut self) -> (r: String)
        ensures
            final(self).state is Closed,
            final(self).descriptor_name == old(self).descriptor_name,
    {
        let description = self.put.shutdown();
        self.state = AgentState::Closed;
        description
    }
}

/// The knowledge one deframed message contributes: every extracted
/// item under the agent's name, then the opaque form itself, kept
/// irrespective of extraction success.
pub open spec fn spec_frame_knowledge(
    agent: AgentName,
    frame: Seq<u8>,
    extracted: Result<Vec<EvaluatedTerm>, Error>,
) -> Seq<KnowledgeView> {
    (match extracted {
        Ok(items) => items@.map_values(
            |it: EvaluatedTerm| KnowledgeView { agent, matcher: None, data: it@ },
        ),
        Err(_) => Seq::empty(),
    }) + seq![
        KnowledgeView {
            agent,
            matcher: None,
            data: EvaluatedTermView { typ: HostType::Bytes, bytes: frame },
        },
    ]
}

/// Records what one deframed message yields, whatever the extraction
/// returned: the extracted items as knowledge of the agent, then the
/// opaque form, so a message that resists extraction is still
/// retained.
pub fn record_frame(
    ctx: &mut TraceContext,
    agent: AgentName,
    frame: &Vec<u8>,
    extracted: Result<Vec<EvaluatedTerm>, Error>,
)
    ensures
        final(ctx).claims@ == old(ctx).claims@,
        old(ctx).knowledge@.is_prefix_of(final(ctx).knowledge@),
        final(ctx).knowledge_views() == old(ctx).knowledge_views() + spec_frame_knowledge(
            agent,
            frame@,
            extracted,
        ),
{
    let ghost base = ctx.knowledge_views();
    let ghost contributed = spec_frame_knowledge(agent, frame@, extracted);
    match &extracted {
        Ok(items) => {
            let n_items: usize = items.len();
            let mut ii: usize = 0;
            proof {
                assert(ctx.knowledge_views() =~= base + contributed.take(0));
            }
            while ii < n_items
                invariant
                    ii <= n_items,
                    n_items == items@.len(),
                    extracted matches Ok(it) && it == *items,
                    base.is_prefix_of(ctx.knowledge_views()),
                    contributed == spec_frame_knowledge(agent, frame@, extracted),
                    contributed.len() == n_items + 1,
                    old(ctx).knowledge@.is_prefix_of(ctx.knowledge@),
                    ctx.claims@ == old(ctx).claims@,
                    ctx.knowledge_views() == base + contributed.take(ii as int),
                decreases n_items - ii,
            {
                proof {
                    assert(contributed[ii as int] == (KnowledgeView {
                        agent,
                        matcher: None,
                        data: items@[ii as int]@,
                    }));
                }
                let item = items[ii].duplicate();
                let ghost before = ctx.knowledge_views();
                ctx.add_knowledge(Knowledge { agent, matcher: None, data: item });
                proof {
                    assert(ctx.knowledge_views() =~= before.push(contributed[ii as int]));
                    assert(ctx.knowledge_views() =~= base + contributed.take(ii + 1 as int));
                }
                ii = ii + 1;
            }
            let opaque = vstd::slice::slice_to_vec(frame.as_slice());
            let ghost before = ctx.knowledge_views();
            ctx.add_knowledge(
                Knowledge { agent, matcher: None, data: EvaluatedTerm::new(HostType::Bytes, opaque) },
            );
            proof {
                assert(ctx.knowledge_views() =~= before.push(contributed.last()));
                assert(contributed.take(n_items as int).push(contributed.last())
                    =~= contributed);
                assert(ctx.knowledge_views() =~= base + contributed);
            }
        },
        Err(_) => {
            let opaque = vstd::slice::slice_to_vec(frame.as_slice());
            ctx.add_knowledge(
                Knowledge { agent, matcher: None, data: EvaluatedTerm::new(HostType::Bytes, opaque) },
            );
            proof {
                assert(ctx.knowledge_views() =~= base + contributed);
            }
        },
    }
}

impl Trace {
    /// Executes the trace: prior traces first, then every step in
    /// declared order against freshly spawned agents. Knowledge and
    /// claims are only ever appended, so whatever an earlier step
    /// recorded stays observable, on success and on every failure. A
    /// trace with nothing declared succeeds; a step with no agent to
    /// serve it fails with the engine's own error; a security
    /// violation reported by the policy over the final claims stops
    /// the trace with `SecurityClaim`.
    pub fn execute<PB: ProtocolBehavior, F: PutFactory>(
        &self,
        ctx: &mut TraceContext,
        factory: &F,
    ) -> (r: Result<(), Error>)
        ensures
            old(ctx).knowledge@.is_prefix_of(final(ctx).knowledge@),
            old(ctx).claims@.is_prefix_of(final(ctx).claims@),
            (self.prior_traces@.len() == 0 && self.descriptors@.len() == 0 && self.steps@.len()
                == 0) ==> r is Ok,
            (self.prior_traces@.len() == 0 && self.descriptors@.len() == 0 && self.steps@.len()
                > 0) ==> (r matches Err(Error::Agent(m)) && m@ == "agent not found"@),
            r matches Err(Error::Agent(m)) ==> (m@ == "agent not found"@ || m@
                == "agent closed"@),
            r matches Err(Error::SecurityClaim(m)) ==> call_ensures(
                PB::policy,
                (&final(ctx).claims,),
                Some(m),
            ),
        decreases *self,
    {
        // prior traces compose against the same context
        let n_prior: usize = self.prior_traces.len();
        let mut p: usize = 0;
        while p < n_prior
            invariant
                p <= n_prior,
                n_prior == self.prior_traces@.len(),
                old(ctx).knowledge@.is_prefix_of(ctx.knowledge@),
                old(ctx).claims@.is_prefix_of(ctx.claims@),
            decreases n_prior - p,
        {
            proof {
                assert(decreases_to!(*self => self.prior_traces));
                assert(decreases_to!(self.prior_traces => self.prior_traces@));
                assert(decreases_to!(self.prior_traces@ => self.prior_traces@[p as int]));
            }
            match self.prior_traces[p].execute::<PB, F>(ctx, factory) {
                Ok(_) => {},
                Err(e) => {
                    return Err(e);
                },
            }
            p = p + 1;
        }
        // spawn every declared agent with scoped lifetime
        let mut agents: Vec<Agent<F::Target>> = Vec::new();
        let n_desc: usize = self.descriptors.len();
        let mut d: usize = 0;
        while d < n_desc
            invariant
                d <= n_desc,
                n_desc == self.descriptors@.len(),
                agents@.len() == d,
                old(ctx).knowledge@.is_prefix_of(ctx.knowledge@),
                old(ctx).claims@.is_prefix_of(ctx.claims@),
            decreases n_desc - d,
        {
            match factory.create(&self.descriptors[d]) {
                Ok(put) => {
                    agents.push(
                        Agent {
                            descriptor_name: self.descriptors[d].name,
                            put,
                            state: AgentState::Ready,
                        },
                    );
                },
                Err(msg) => {
                    shutdown_all(&mut agents);
                    return Err(Error::Put(msg));
                },
            }
            d = d + 1;
        }
        // run the steps in declared order
        let n_steps: usize = self.steps.len();
        let mut s: usize = 0;
        while s < n_steps
            invariant
                s <= n_steps,
                n_steps == self.steps@.len(),
                agents@.len() == self.descriptors@.len(),
                self.descriptors@.len() == 0 ==> s == 0,
                old(ctx).knowledge@.is_prefix_of(ctx.knowledge@),
                old(ctx).claims@.is_prefix_of(ctx.claims@),
            decreases n_steps - s,
        {
            let step = &self.steps[s];
            let agent_index = match find_agent(&agents, step.agent) {
                Some(ix) => ix,
                None => {
                    shutdown_all(&mut agents);
                    return Err(Error::Agent(String::from_str("agent not found")));
                },
            };
            match &step.action {
                Action::Input(recipe) => {
                    let ghost ks = ctx.knowledge_views();
                    let ghost cs = ctx.claim_views();
                    let value = match recipe.evaluate(ctx) {
                        Ok(v) => v,
                        Err(e) => {
                            proof {
                                match crate::term::spec_eval(*recipe, ks, cs) {
                                    Ok(_) => {
                                        assert(false);
                                    },
                                    Err(se) => {
                                        match se {
                                            crate::term::SpecEvalError::UnknownVariable(_) => {},
                                            crate::term::SpecEvalError::CallMissing(_, _) => {},
                                            crate::term::SpecEvalError::CallMismatch(_, _, _) => {},
                                        }
                                    },
                                }
                            }
                            shutdown_all(&mut agents);
                            return Err(e);
                        },
                    };
                    let bytes = value.encode();
                    match agents[agent_index].input(&bytes) {
                        Ok(_) => {},
                        Err(e) => {
                            shutdown_all(&mut agents);
                            return Err(e);
                        },
                    }
                },
                Action::Output => {
                    let agent = &mut agents[agent_index];
                    let raw = match agent.put.outbound_read() {
                        Ok(b) => b,
                        Err(msg) => {
                            shutdown_all(&mut agents);
                            return Err(Error::Stream(msg));
                        },
                    };
                    agent.state = AgentState::Reading;
                    let agent_name = agent.descriptor_name;
                    let frames = PB::deframe(&raw);
                    let n_frames: usize = frames.len();
                    let mut fi: usize = 0;
                    while fi < n_frames
                        invariant
                            fi <= n_frames,
                            n_frames == frames@.len(),
                            old(ctx).knowledge@.is_prefix_of(ctx.knowledge@),
                            old(ctx).claims@.is_prefix_of(ctx.claims@),
                        decreases n_frames - fi,
                    {
                        let extracted = PB::extract_knowledge(&frames[fi]);
                        record_frame(ctx, agent_name, &frames[fi], extracted);
                        fi = fi + 1;
                    }
                },
            }
            // drain the agent's claims and check the policy
            let claims = agents[agent_index].put.drain_claims();
            let n_claims: usize = claims.len();
            let mut ci: usize = 0;
            while ci < n_claims
                invariant
                    ci <= n_claims,
                    n_claims == claims@.len(),
                    old(ctx).knowledge@.is_prefix_of(ctx.knowledge@),
                    old(ctx).claims@.is_prefix_of(ctx.claims@),
                decreases n_claims - ci,
            {
                let c = &claims[ci];
                ctx.add_claim(Claim { agent: c.agent, kind: c.kind, data: c.data.duplicate() });
                ci = ci + 1;
            }
            if let Some(msg) = PB::policy(&ctx.claims) {
                shutdown_all(&mut agents);
                return Err(Error::SecurityClaim(msg));
            }
            s = s + 1;
        }
        shutdown_all(&mut agents);
        Ok(())
    }
}

/// The position of the agent with the given name.
fn find_agent<P: Put>(agents: &Vec<Agent<P>>, name: AgentName) -> (r: Option<usize>)
    ensures
        match r {
            Some(ix) => ix < agents@.len() && agents@[ix as int].descriptor_name == name,
            None => true,
        },
{
    let n: usize = agents.len();
    let mut i: usize = 0;
    while i < n
        invariant
            i <= n,
            n == agents@.len(),
        decreases n - i,
    {
        if agents[i].descriptor_name == name {
            return Some(i);
        }
        i = i + 1;
    }
    None
}

/// Tears every agent down: the scoped-release duty on every exit path.
fn shutdown_all<P: Put>(agents: &mut Vec<Agent<P>>)
{
    let n: usize = agents.len();
    let mut i: usize = 0;
    while i < n
        invariant
            i <= n,
            n == agents@.len(),
        decreases n - i,
    {
        let _ = agents[i].close();
        i = i + 1;
    }
}

/// One more than a counter, staying put at the top.
pub open spec fn spec_bump(c: u64) -> u64 {
    if c == u64::MAX {
        c
    } else {
        (c + 1) as u64
    }
}

/// How many traces ended in each non-fatal failure kind. The security
/// violation is never tallied: it is fatal and signals a finding.
#[derive(Debug, Clone, Copy, PartialEq, Eq, Structural)]
pub struct ErrorTally {
    pub fn_errors: u64,
    pub term: u64,
    pub put: u64,
    pub io: u64,
    pub agent: u64,
    pub stream: u64,
    pub extraction: u64,
}

/// The tally after recording one failure: its kind's counter moves up,
/// saturating; a security violation changes nothing.
pub open spec fn spec_tally_after(t: ErrorTally, e: Error) -> ErrorTally {
    match e {
        Error::Fn(_) => ErrorTally { fn_errors: spec_bump(t.fn_errors), ..t },
        Error::Term(_) => ErrorTally { term: spec_bump(t.term), ..t },
        Error::Put(_) => ErrorTally { put: spec_bump(t.put), ..t },
        Error::IO(_) => ErrorTally { io: spec_bump(t.io), ..t },
        Error::Agent(_) => ErrorTally { agent: spec_bump(t.agent), ..t },
        Error::Stream(_) => ErrorTally { stream: spec_bump(t.stream), ..t },
        Error::Extraction => ErrorTally { extraction: spec_bump(t.extraction), ..t },
        Error::SecurityClaim(_) => t,
    }
}

impl ErrorTally {
    /// All counters at zero.
    pub fn new() -> (r: ErrorTally)
        ensures
            r == (ErrorTally {
                fn_errors: 0,
                term: 0,
                put: 0,
                io: 0,
                agent: 0,
                stream: 0,
                extraction: 0,
            }),
    {
        ErrorTally { fn_errors: 0, term: 0, put: 0, io: 0, agent: 0, stream: 0, extraction: 0 }
    }

    /// Tallies one failure under its kind and reports whether it is
    /// the fatal security violation, which is never tallied and must
    /// end the run.
    pub fn record(&mut self, err: &Error) -> (fatal: bool)
        ensures
            *final(self) == spec_tally_after(*old(self), *err),
            fatal == (err is SecurityClaim),
    {
        match err {
            Error::Fn(_) => {
                if self.fn_errors < u64::MAX {
                    self.fn_errors = self.fn_errors + 1;
                }
                false
            },
            Error::Term(_) => {
                if self.term < u64::MAX {
                    self.term = self.term + 1;
                }
                false
            },
            Error::Put(_) => {
                if self.put < u64::MAX {
                    self.put = self.put + 1;
                }
                false
            },
            Error::IO(_) => {
                if self.io < u64::MAX {
                    self.io = self.io + 1;
                }
                false
            },
            Error::Agent(_) => {
                if self.agent < u64::MAX {
                    self.agent = self.agent + 1;
                }
                false
            },
            Error::Stream(_) => {
                if self.stream < u64::MAX {
                    self.stream = self.stream + 1;
                }
                false
            },
            Error::Extraction => {
                if self.extraction < u64::MAX {
                    self.extraction = self.extraction + 1;
                }
                false
            },
            Error::SecurityClaim(_) => true,
        }
    }
}

/// The process-wide slot for the options new programs under test get
/// by default; installed once at startup.
pub type PutOptionsAnchor = OnceSlot<PutOptions>;

/// The default options held by the anchor.
///
/// The anchor must have been set; asking for defaults before they are
/// installed is a startup-order bug.
pub fn default_put_options(anchor: &PutOptionsAnchor) -> (r: &PutOptions)
    requires
        anchor.inner is Some,
    ensures
        anchor.inner == Some(*r),
{
    match &anchor.inner {
        Some(o) => o,
        None => vstd::pervasive::unreached(),
    }
}

/// Installs the default options. Installing a second time is an error
/// and leaves the anchor as it was.
pub fn set_default_put_options(anchor: &mut PutOptionsAnchor, options: PutOptions) -> (r: Result<
    (),
    (),
>)
    ensures
        old(anchor).inner is None ==> final(anchor).inner == Some(options) && r is Ok,
        old(anchor).inner is Some ==> *final(anchor) == *old(anchor) && r is Err,
{
    match anchor.set(options) {
        Ok(_) => Ok(()),
        Err(_) => Err(()),
    }
}

} // verus!
