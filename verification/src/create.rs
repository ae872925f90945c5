//! The steps of storing a new link, as a state machine: the caller performs
//! each action against the store and hands back how it went.
use vstd::prelude::*;
use crate::blocklist::Blocklist;
use crate::error::ApiError;
use crate::link::NewLink;
use crate::outside::{sqids_encodes_only, sqids_encoding};
use crate::session::{admin_cookie_name, session_cookie_spec, SessionCookie, LINK_SESSION_SECONDS};
use crate::slug::{custom_slug_verdict, lemma_accepted_custom_slug, generation_step_spec, GenerationStep, GenerationStepView, SlugEncoder, SlugGeneration};

verus! {

/// What the caller is to do against the store next.
#[derive(Debug, PartialEq, Eq)]
pub enum CreateAction {
    /// Insert the link under `slug`; inside the open transaction when
    /// `in_transaction` says so.
    InsertLink { slug: String, in_transaction: bool },
    /// Open a transaction.
    BeginTransaction,
    /// Insert a row into the counter table, in the transaction, and report
    /// its row id.
    InsertCounter,
    /// Commit the transaction.
    Commit,
    /// Answer the request: with the stored slug, or with an error (the open
    /// transaction, if any, is dropped, which rolls it back).
    Finish(Result<String, ApiError>),
}

/// The text of a `CreateAction`.
pub enum CreateActionView {
    InsertLink(Seq<char>, bool),
    BeginTransaction,
    InsertCounter,
    Commit,
    Finish(Result<Seq<char>, ApiError>),
}

impl View for CreateAction {
    type V = CreateActionView;

    open spec fn view(&self) -> CreateActionView {
        match self {
            CreateAction::InsertLink { slug, in_transaction } => CreateActionView::InsertLink(slug@, *in_transaction),
            CreateAction::BeginTransaction => CreateActionView::BeginTransaction,
            CreateAction::InsertCounter => CreateActionView::InsertCounter,
            CreateAction::Commit => CreateActionView::Commit,
            CreateAction::Finish(r) => CreateActionView::Finish(
                match r {
                    Ok(s) => Ok(s@),
                    Err(e) => Err(*e),
                },
            ),
        }
    }
}

/// Where storing a link stands.
pub enum CreatePhase {
    /// Waiting for the insert under the custom slug.
    InsertingCustom(String),
    /// Waiting for the transaction to open.
    Beginning,
    /// Waiting for a counter row.
    Counting,
    /// Waiting for the insert under a generated slug.
    InsertingGenerated(String),
    /// Waiting for the commit of the link stored under the slug.
    Committing(String),
    /// The request is answered.
    Finished,
}

/// The text of a `CreatePhase`.
pub enum CreatePhaseView {
    InsertingCustom(Seq<char>),
    Beginning,
    Counting,
    InsertingGenerated(Seq<char>),
    Committing(Seq<char>),
    Finished,
}

impl View for CreatePhase {
    type V = CreatePhaseView;

    open spec fn view(&self) -> CreatePhaseView {
        match self {
            CreatePhase::InsertingCustom(s) => CreatePhaseView::InsertingCustom(s@),
            CreatePhase::Beginning => CreatePhaseView::Beginning,
            CreatePhase::Counting => CreatePhaseView::Counting,
            CreatePhase::InsertingGenerated(s) => CreatePhaseView::InsertingGenerated(s@),
            CreatePhase::Committing(s) => CreatePhaseView::Committing(s@),
            CreatePhase::Finished => CreatePhaseView::Finished,
        }
    }
}

/// Storing one new link: the phase, and the encodings made so far.
pub struct LinkCreation {
    pub phase: CreatePhase,
    pub generation: SlugGeneration,
}

/// The failure answer for the generated-slug path.
pub open spec fn creation_failed() -> CreateActionView {
    CreateActionView::Finish(Err(ApiError::LinkCreationFailed))
}

/// One transition: from a phase, the encodings made, and how the last action
/// went (`Ok` with the counter row id where the action was `InsertCounter`),
/// to the next phase, the encodings made, and the next action. `encoded` is
/// what encoding the row id gives, where a counter row came back.
pub open spec fn creation_transition(
    phase: CreatePhaseView,
    attempts: u64,
    outcome: Result<i64, ()>,
    encoded: Option<Seq<char>>,
    blocked: Set<Seq<char>>,
) -> (CreatePhaseView, u64, CreateActionView) {
    match phase {
        CreatePhaseView::InsertingCustom(s) => match outcome {
            Ok(_) => (CreatePhaseView::Finished, attempts, CreateActionView::Finish(Ok(s))),
            Err(_) => (CreatePhaseView::Finished, attempts, CreateActionView::Finish(Err(ApiError::SlugTaken))),
        },
        CreatePhaseView::Beginning => match outcome {
            Ok(_) => (CreatePhaseView::Counting, attempts, CreateActionView::InsertCounter),
            Err(_) => (CreatePhaseView::Finished, attempts, creation_failed()),
        },
        CreatePhaseView::Counting => match outcome {
            Ok(_) => {
                let (attempts2, step) = generation_step_spec(attempts, encoded, blocked);
                match step {
                    GenerationStepView::Accept(s) => (
                        CreatePhaseView::InsertingGenerated(s),
                        attempts2,
                        CreateActionView::InsertLink(s, true),
                    ),
                    GenerationStepView::Retry => (CreatePhaseView::Counting, attempts2, CreateActionView::InsertCounter),
                    GenerationStepView::GiveUp => (CreatePhaseView::Finished, attempts2, creation_failed()),
                }
            },
            Err(_) => (CreatePhaseView::Finished, attempts, creation_failed()),
        },
        CreatePhaseView::InsertingGenerated(s) => match outcome {
            Ok(_) => (CreatePhaseView::Committing(s), attempts, CreateActionView::Commit),
            Err(_) => (CreatePhaseView::Finished, attempts, creation_failed()),
        },
        CreatePhaseView::Committing(s) => match outcome {
            Ok(_) => (CreatePhaseView::Finished, attempts, CreateActionView::Finish(Ok(s))),
            Err(_) => (CreatePhaseView::Finished, attempts, creation_failed()),
        },
        CreatePhaseView::Finished => (CreatePhaseView::Finished, attempts, creation_failed()),
    }
}

/// Storing a link answers with a slug only once the link is stored under
/// it: right after the insert under the custom slug, or after the commit of
/// the insert under a generated slug; a generated slug is inserted only when
/// it is the encoding of the counter row, not empty and not blocked.
pub proof fn lemma_creation_answers_stored_slug(
    phase: CreatePhaseView,
    attempts: u64,
    outcome: Result<i64, ()>,
    encoded: Option<Seq<char>>,
    blocked: Set<Seq<char>>,
)
    ensures
        ({
            let (next, _, action) = creation_transition(phase, attempts, outcome, encoded, blocked);
            &&& action matches CreateActionView::Finish(Ok(s)) ==> outcome is Ok && (phase
                == CreatePhaseView::InsertingCustom(s) || phase == CreatePhaseView::Committing(s))
            &&& next matches CreatePhaseView::Committing(s) ==> outcome is Ok && phase
                == CreatePhaseView::InsertingGenerated(s)
            &&& next matches CreatePhaseView::InsertingGenerated(s) ==> outcome is Ok && phase is Counting
                && encoded == Some(s) && s.len() > 0 && !blocked.contains(s) && s != admin_cookie_name()
                && action == CreateActionView::InsertLink(s, true)
        }),
{
}

/// Only the admin login opens the stats. The stats read the cookie named
/// `admin_cookie_name()`, and a link's session cookie is named after the
/// link's slug; a slug that passed the custom-slug checks, or that
/// generation accepted, is never that name, so no link's cookie is ever
/// taken for the admin session.
pub proof fn lemma_link_cookie_never_opens_the_stats(
    c: SessionCookie,
    slug: Seq<char>,
    issued: i64,
    secure: bool,
    blocked: Set<Seq<char>>,
    attempts: u64,
    encoded: Option<Seq<char>>,
)
    requires
        custom_slug_verdict(slug, blocked) is Ok || generation_step_spec(attempts, encoded, blocked).1
            == GenerationStepView::Accept(slug),
        session_cookie_spec(c, slug, issued, LINK_SESSION_SECONDS, secure),
    ensures
        c.name@ != admin_cookie_name(),
{
    if custom_slug_verdict(slug, blocked) is Ok {
        lemma_accepted_custom_slug(slug, blocked);
    }
}

impl LinkCreation {
    /// Starts storing `link`: under its custom slug directly, or else
    /// through a transaction that draws counter values until one encodes to
    /// a usable slug.
    pub fn start(link: &NewLink) -> (r: (LinkCreation, CreateAction))
        ensures
            r.0.generation.attempts == 0,
            match link.slug {
                Some(s) => r.0.phase@ == CreatePhaseView::InsertingCustom(s@) && r.1@ == CreateActionView::InsertLink(
                    s@,
                    false,
                ),
                None => r.0.phase@ == CreatePhaseView::Beginning && r.1@ == CreateActionView::BeginTransaction,
            },
    {
        match &link.slug {
            Some(s) => (
                LinkCreation { phase: CreatePhase::InsertingCustom(s.clone()), generation: SlugGeneration::new() },
                CreateAction::InsertLink { slug: s.clone(), in_transaction: false },
            ),
            None => (
                LinkCreation { phase: CreatePhase::Beginning, generation: SlugGeneration::new() },
                CreateAction::BeginTransaction,
            ),
        }
    }

    /// Whether the request is answered.
    pub fn is_finished(&self) -> (r: bool)
        ensures
            r <==> self.phase@ is Finished,
    {
        match self.phase {
            CreatePhase::Finished => true,
            _ => false,
        }
    }

    /// Takes how the last action went and says what to do next.
    pub fn on_outcome(
        &mut self,
        outcome: Result<i64, ()>,
        encoder: &SlugEncoder,
        slug_blocklist: &Blocklist,
    ) -> (action: CreateAction)
        ensures
            (final(self).phase@, final(self).generation.attempts, action@) == creation_transition(
                old(self).phase@,
                old(self).generation.attempts,
                outcome,
                match outcome {
                    Ok(id) => sqids_encoding(encoder.alphabet_spec(), encoder.min_length_spec(), id as u64),
                    Err(_) => None,
                },
                slug_blocklist@,
            ),
            final(self).phase@ matches CreatePhaseView::InsertingGenerated(s) ==> outcome matches Ok(id)
                && sqids_encodes_only(encoder.alphabet_spec(), encoder.min_length_spec(), id as u64, s),
    {
        let mut phase = CreatePhase::Finished;
        std::mem::swap(&mut phase, &mut self.phase);
        match phase {
            CreatePhase::InsertingCustom(s) => match outcome {
                Ok(_) => CreateAction::Finish(Ok(s)),
                Err(_) => CreateAction::Finish(Err(ApiError::SlugTaken)),
            },
            CreatePhase::Beginning => match outcome {
                Ok(_) => {
                    self.phase = CreatePhase::Counting;
                    CreateAction::InsertCounter
                },
                Err(_) => CreateAction::Finish(Err(ApiError::LinkCreationFailed)),
            },
            CreatePhase::Counting => match outcome {
                Ok(id) => match self.generation.step(encoder, id, slug_blocklist) {
                    GenerationStep::Accept(s) => {
                        self.phase = CreatePhase::InsertingGenerated(s.clone());
                        CreateAction::InsertLink { slug: s, in_transaction: true }
                    },
                    GenerationStep::Retry => {
                        self.phase = CreatePhase::Counting;
                        CreateAction::InsertCounter
                    },
                    GenerationStep::GiveUp => CreateAction::Finish(Err(ApiError::LinkCreationFailed)),
                },
                Err(_) => CreateAction::Finish(Err(ApiError::LinkCreationFailed)),
            },
            CreatePhase::InsertingGenerated(s) => match outcome {
                Ok(_) => {
                    self.phase = CreatePhase::Committing(s);
                    CreateAction::Commit
                },
                Err(_) => CreateAction::Finish(Err(ApiError::LinkCreationFailed)),
            },
            CreatePhase::Committing(s) => match outcome {
                Ok(_) => CreateAction::Finish(Ok(s)),
                Err(_) => CreateAction::Finish(Err(ApiError::LinkCreationFailed)),
            },
            CreatePhase::Finished => CreateAction::Finish(Err(ApiError::LinkCreationFailed)),
        }
    }
}

} // verus!
