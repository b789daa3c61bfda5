//! The run orchestrator, as a state machine. The surrounding program performs
//! the outside work — the catalog fetch, the token exchange, the chat posts,
//! the durable writes — and reports each outcome here; every decision of the
//! run is made and verified in this module.
//!
//! A run moves `Fetching -> (Idle | Refreshing) -> Notifying -> Done`, with
//! `Failed` reachable from every non-terminal stage. The credential is
//! refreshed exactly once per run when there are new files, and never when
//! there are none.

use vstd::prelude::*;

use crate::data::{views_of, Credential, CredentialView, FileDetail, FileView, RunError, Secrets,
    SecretsView};
use crate::diff::{diff_and_record, ids_after_spec, lemma_new_files_are_listed, new_files_spec};
use crate::ident::identity_of;
use crate::message::{build_notification, composed_message, NotificationMessage};
use crate::registry::{records_of, RecordView, SeenFileRegistry};
use crate::token::{build_refresh_request, token_url, RefreshRequest};

verus! {

/// The stage a run is in.
#[derive(Clone, Copy, Debug, PartialEq, Eq, Structural)]
pub enum Phase {
    /// Waiting for the catalog listing.
    Fetching,
    /// New files are pending; waiting for the token refresh.
    Refreshing,
    /// Notifying the pending files one by one, in reverse discovery order.
    Notifying,
    /// Terminal: nothing was new, nothing was sent.
    Idle,
    /// Terminal: every pending file was notified.
    Done,
    /// Terminal: aborted by a fatal error.
    Failed,
}

/// One run of the pipeline.
pub struct Pipeline {
    secrets: Secrets,
    credential: Credential,
    registry: SeenFileRegistry,
    phase: Phase,
    pending: Vec<FileDetail>,
    notified: usize,
    refreshes: u32,
    error: Option<RunError>,
}

impl Pipeline {
    /// The stage the run is in.
    pub closed spec fn spec_phase(self) -> Phase {
        self.phase
    }

    /// The fatal error the run aborted with, if it did.
    pub closed spec fn spec_error(self) -> Option<RunError> {
        self.error
    }

    /// The files awaiting (or having received) notification, in send order.
    pub closed spec fn pending_files(self) -> Seq<FileView> {
        views_of(self.pending@)
    }

    /// How many pending files have been notified so far.
    pub closed spec fn notified_count(self) -> int {
        self.notified as int
    }

    /// How many times the credential was refreshed this run.
    pub closed spec fn refresh_count(self) -> int {
        self.refreshes as int
    }

    /// The identities the registry holds.
    pub closed spec fn registry_ids(self) -> Set<int> {
        self.registry.ids()
    }

    /// The registry rows, in insertion order.
    pub closed spec fn registry_rows(self) -> Seq<RecordView> {
        self.registry.rows_view()
    }

    /// The credential the run currently holds.
    pub closed spec fn spec_credential(self) -> CredentialView {
        self.credential@
    }

    /// The static secrets the run was started with.
    pub closed spec fn spec_secrets(self) -> SecretsView {
        self.secrets@
    }

    /// Every pending file's identity is recorded in the registry.
    pub open spec fn pending_recorded(self) -> bool {
        forall|i: int|
            0 <= i < self.pending_files().len() ==> self.registry_ids().contains(
                identity_of((#[trigger] self.pending_files()[i]).id))
    }

    /// Well-formedness: the registry is well-formed, the counters agree with
    /// the stage, at most one refresh ever happens, and a pending file is
    /// always already recorded.
    pub closed spec fn wf(self) -> bool {
        &&& self.registry.wf()
        &&& self.pending_recorded()
        &&& 0 <= self.notified <= self.pending@.len()
        &&& self.refreshes <= 1
        &&& match self.phase {
            Phase::Fetching => self.pending@.len() == 0 && self.notified == 0 && self.refreshes
                == 0 && self.error is None,
            Phase::Refreshing => self.pending@.len() > 0 && self.notified == 0 && self.refreshes
                == 0 && self.error is None,
            Phase::Notifying => self.pending@.len() > 0 && self.notified < self.pending@.len()
                && self.refreshes == 1 && self.error is None,
            Phase::Idle => self.pending@.len() == 0 && self.refreshes == 0 && self.error is None,
            Phase::Done => self.pending@.len() > 0 && self.notified == self.pending@.len()
                && self.refreshes == 1 && self.error is None,
            Phase::Failed => self.error is Some,
        }
    }

    /// A recorded pending set stays recorded when neither the pending files
    /// nor the registry identities change.
    proof fn lemma_recorded_transfer(a: Pipeline, b: Pipeline)
        requires
            a.pending_recorded(),
            b.pending_files() == a.pending_files(),
            b.registry_ids() == a.registry_ids(),
        ensures
            b.pending_recorded(),
    {
        assert forall|i: int| 0 <= i < b.pending_files().len() implies b.registry_ids().contains(
            identity_of((#[trigger] b.pending_files()[i]).id)) by {
            assert(a.registry_ids().contains(identity_of(a.pending_files()[i].id)));
        }
    }

    /// Start a run from the loaded secrets, the stored credential and the
    /// registry.
    pub fn new(secrets: Secrets, credential: Credential, registry: SeenFileRegistry) -> (p: Self)
        requires
            registry.wf(),
        ensures
            p.wf(),
            p.spec_phase() == Phase::Fetching,
            p.spec_secrets() == secrets@,
            p.spec_credential() == credential@,
            p.registry_ids() == registry.ids(),
            p.registry_rows() == registry.rows_view(),
            p.refresh_count() == 0,
    {
        Pipeline {
            secrets,
            credential,
            registry,
            phase: Phase::Fetching,
            pending: Vec::new(),
            notified: 0,
            refreshes: 0,
            error: None,
        }
    }

    /// Start a run from the configuration documents as loaded. A missing
    /// secrets or credential document is a configuration failure: the run
    /// never starts, before any network call is made.
    pub fn from_config(
        secrets: Option<Secrets>,
        credential: Option<Credential>,
        registry: SeenFileRegistry,
    ) -> (r: Result<Self, RunError>)
        requires
            registry.wf(),
        ensures
            r is Ok <==> secrets is Some && credential is Some,
            r is Err ==> r->Err_0 == RunError::Config,
            r is Ok ==> r->Ok_0.wf() && r->Ok_0.spec_phase() == Phase::Fetching
                && r->Ok_0.spec_secrets() == secrets->0@ && r->Ok_0.spec_credential()
                == credential->0@ && r->Ok_0.registry_ids() == registry.ids()
                && r->Ok_0.registry_rows() == registry.rows_view() && r->Ok_0.refresh_count() == 0,
    {
        match (secrets, credential) {
            (Some(secrets), Some(credential)) => Ok(Pipeline::new(secrets, credential, registry)),
            (_, _) => Err(RunError::Config),
        }
    }

    /// The fetched listing arrived. Record every entry whose identity is new,
    /// in fetch order; the new entries become the pending set, in reverse
    /// discovery order. With nothing new the run is over (`Idle`); otherwise
    /// the credential must be refreshed before anything is sent
    /// (`Refreshing`).
    pub fn on_listing(&mut self, listing: Vec<FileDetail>)
        requires
            old(self).wf(),
            old(self).spec_phase() == Phase::Fetching,
        ensures
            final(self).wf(),
            final(self).registry_ids() == ids_after_spec(
                old(self).registry_ids(),
                views_of(listing@),
            ),
            final(self).pending_files() == new_files_spec(
                old(self).registry_ids(),
                views_of(listing@),
            ).reverse(),
            final(self).spec_phase() == if new_files_spec(
                old(self).registry_ids(),
                views_of(listing@),
            ).len() == 0 {
                Phase::Idle
            } else {
                Phase::Refreshing
            },
            final(self).refresh_count() == 0,
            final(self).notified_count() == 0,
            final(self).spec_credential() == old(self).spec_credential(),
            final(self).spec_secrets() == old(self).spec_secrets(),
            final(self).registry_rows() == old(self).registry_rows() + records_of(
                new_files_spec(old(self).registry_ids(), views_of(listing@)),
            ),
            old(self).registry_rows().len() <= final(self).registry_rows().len(),
            forall|k: int|
                0 <= k < old(self).registry_rows().len()
                    ==> (#[trigger] final(self).registry_rows()[k])
                    == old(self).registry_rows()[k],
            forall|i: int|
                0 <= i < listing@.len() ==> final(self).registry_ids().contains(
                    identity_of((#[trigger] views_of(listing@)[i]).id)),
    {
        let ghost ids0 = self.registry.ids();
        let ghost vs = views_of(listing@);
        let new_files = diff_and_record(&mut self.registry, listing);
        proof {
            lemma_new_files_are_listed(ids0, vs);
            let nfs = new_files_spec(ids0, vs);
            assert forall|j: int| 0 <= j < views_of(new_files@).len() implies self.registry.ids()
                .contains(identity_of((#[trigger] views_of(new_files@)[j]).id)) by {
                let x = views_of(new_files@)[j];
                assert(x == nfs.reverse()[j]);
                assert(x == nfs[nfs.len() - 1 - j]);
                assert(vs.contains(x));
                let i = choose|i: int| 0 <= i < vs.len() && vs[i] == x;
                assert(self.registry.ids().contains(identity_of(vs[i].id)));
            }
        }
        let ghost nfv = views_of(new_files@);
        if new_files.len() == 0 {
            proof {
                assert(new_files_spec(ids0, vs).reverse().len() == 0);
            }
            self.phase = Phase::Idle;
            self.pending = new_files;
        } else {
            self.phase = Phase::Refreshing;
            self.pending = new_files;
        }
        proof {
            assert(self.pending_files() == nfv);
            assert forall|j: int| 0 <= j < self.pending_files().len() implies self.registry_ids()
                .contains(identity_of((#[trigger] self.pending_files()[j]).id)) by {
                assert(self.registry_ids().contains(identity_of(nfv[j].id)));
            }
        }
    }

    /// The catalog fetch failed: either the transport call itself, or an
    /// envelope that did not parse. The run aborts.
    pub fn on_fetch_failed(&mut self, malformed: bool)
        requires
            old(self).wf(),
            old(self).spec_phase() == Phase::Fetching,
        ensures
            final(self).wf(),
            final(self).spec_phase() == Phase::Failed,
            final(self).spec_error() == Some(
                if malformed {
                    RunError::MalformedResponse
                } else {
                    RunError::RemoteFetch
                },
            ),
            final(self).refresh_count() == 0,
            final(self).registry_rows() == old(self).registry_rows(),
            final(self).registry_ids() == old(self).registry_ids(),
            final(self).spec_credential() == old(self).spec_credential(),
            final(self).spec_secrets() == old(self).spec_secrets(),
    {
        self.error = Some(
            if malformed {
                RunError::MalformedResponse
            } else {
                RunError::RemoteFetch
            },
        );
        self.phase = Phase::Failed;
        proof {
            Self::lemma_recorded_transfer(*old(self), *self);
        }
    }

    /// The token exchange to perform: the refresh-token grant built from the
    /// run's secrets and its current credential.
    pub fn refresh_request(&self) -> (r: RefreshRequest)
        requires
            self.wf(),
            self.spec_phase() == Phase::Refreshing,
        ensures
            r@.url == token_url(self.spec_secrets().tenant_id),
            r@.grant_type == "refresh_token"@,
            r@.client_id == self.spec_secrets().client_id,
            r@.client_secret == self.spec_secrets().client_secret,
            r@.refresh_token == self.spec_credential().refresh_token,
            r@.scope == self.spec_credential().scope,
    {
        build_refresh_request(&self.secrets, &self.credential)
    }

    /// The token exchange succeeded: the run's credential is replaced
    /// wholesale — the one refresh of this run — and notification begins. The
    /// caller must persist the new credential before performing the first
    /// notification.
    pub fn on_refreshed(&mut self, credential: Credential)
        requires
            old(self).wf(),
            old(self).spec_phase() == Phase::Refreshing,
        ensures
            final(self).wf(),
            final(self).spec_phase() == Phase::Notifying,
            final(self).spec_credential() == credential@,
            final(self).refresh_count() == 1,
            final(self).notified_count() == 0,
            final(self).pending_files() == old(self).pending_files(),
            final(self).registry_rows() == old(self).registry_rows(),
            final(self).registry_ids() == old(self).registry_ids(),
            final(self).spec_secrets() == old(self).spec_secrets(),
    {
        self.credential = credential;
        self.refreshes = 1;
        self.phase = Phase::Notifying;
        proof {
            Self::lemma_recorded_transfer(*old(self), *self);
        }
    }

    /// The token exchange failed. The run aborts; the pending files stay
    /// recorded in the registry even though none of them was notified.
    pub fn on_refresh_failed(&mut self)
        requires
            old(self).wf(),
            old(self).spec_phase() == Phase::Refreshing,
        ensures
            final(self).wf(),
            final(self).spec_phase() == Phase::Failed,
            final(self).spec_error() == Some(RunError::Auth),
            final(self).refresh_count() == 0,
            final(self).registry_rows() == old(self).registry_rows(),
            final(self).registry_ids() == old(self).registry_ids(),
            final(self).pending_files() == old(self).pending_files(),
            final(self).spec_credential() == old(self).spec_credential(),
            final(self).spec_secrets() == old(self).spec_secrets(),
            forall|i: int|
                0 <= i < final(self).pending_files().len() ==> final(self).registry_ids().contains(
                    identity_of((#[trigger] final(self).pending_files()[i]).id)),
    {
        self.error = Some(RunError::Auth);
        self.phase = Phase::Failed;
        proof {
            Self::lemma_recorded_transfer(*old(self), *self);
        }
    }

    /// The notification to send next: the message composed for the first
    /// not-yet-notified pending file, under a freshly generated attachment
    /// identifier.
    pub fn next_notification(&self) -> (m: NotificationMessage)
        requires
            self.wf(),
            self.spec_phase() == Phase::Notifying,
        ensures
            m@ == composed_message(
                self.pending_files()[self.notified_count()],
                m@.attachment_id,
            ),
            m@.attachment_id.len() == 36,
    {
        build_notification(&self.pending[self.notified])
    }

    /// One notification was sent. Move to the next pending file; after the
    /// last one the run is over (`Done`).
    pub fn on_notified(&mut self)
        requires
            old(self).wf(),
            old(self).spec_phase() == Phase::Notifying,
        ensures
            final(self).wf(),
            final(self).notified_count() == old(self).notified_count() + 1,
            final(self).spec_phase() == if old(self).notified_count() + 1 == old(
                self).pending_files().len() {
                Phase::Done
            } else {
                Phase::Notifying
            },
            final(self).pending_files() == old(self).pending_files(),
            final(self).registry_rows() == old(self).registry_rows(),
            final(self).registry_ids() == old(self).registry_ids(),
            final(self).refresh_count() == 1,
            final(self).spec_credential() == old(self).spec_credential(),
    {
        let n = self.pending.len();
        self.notified = self.notified + 1;
        if self.notified == n {
            self.phase = Phase::Done;
        }
        proof {
            Self::lemma_recorded_transfer(*old(self), *self);
        }
    }

    /// A notification call failed. The whole run aborts; the remaining
    /// pending files stay recorded in the registry without having been
    /// notified.
    pub fn on_notify_failed(&mut self)
        requires
            old(self).wf(),
            old(self).spec_phase() == Phase::Notifying,
        ensures
            final(self).wf(),
            final(self).spec_phase() == Phase::Failed,
            final(self).spec_error() == Some(RunError::Notify),
            final(self).registry_rows() == old(self).registry_rows(),
            final(self).registry_ids() == old(self).registry_ids(),
            final(self).pending_files() == old(self).pending_files(),
            final(self).spec_credential() == old(self).spec_credential(),
            final(self).spec_secrets() == old(self).spec_secrets(),
            final(self).notified_count() == old(self).notified_count(),
    {
        self.error = Some(RunError::Notify);
        self.phase = Phase::Failed;
        proof {
            Self::lemma_recorded_transfer(*old(self), *self);
        }
    }

    /// The stage the run is in.
    pub fn phase(&self) -> (r: Phase)
        ensures
            r == self.spec_phase(),
    {
        self.phase
    }

    /// The fatal error the run aborted with, if it did.
    pub fn error(&self) -> (r: Option<RunError>)
        ensures
            r == self.spec_error(),
    {
        self.error
    }

    /// How many pending files this run discovered.
    pub fn pending_len(&self) -> (r: usize)
        ensures
            r == self.pending_files().len(),
    {
        self.pending.len()
    }

    /// How many pending files were notified so far.
    pub fn notified_len(&self) -> (r: usize)
        ensures
            r == self.notified_count(),
    {
        self.notified
    }

    /// How many times the credential was refreshed this run.
    pub fn refreshes(&self) -> (r: u32)
        ensures
            r == self.refresh_count(),
    {
        self.refreshes
    }

    /// The pending file at a send position.
    pub fn pending_file(&self, i: usize) -> (r: &FileDetail)
        requires
            i < self.pending_files().len(),
        ensures
            r@ == self.pending_files()[i as int],
    {
        &self.pending[i]
    }

    /// The credential the run currently holds.
    pub fn credential(&self) -> (r: &Credential)
        ensures
            r@ == self.spec_credential(),
    {
        &self.credential
    }

    /// The secrets the run was started with.
    pub fn secrets(&self) -> (r: &Secrets)
        ensures
            r@ == self.spec_secrets(),
    {
        &self.secrets
    }

    /// The registry as this run left it.
    pub fn into_registry(self) -> (r: SeenFileRegistry)
        requires
            self.wf(),
        ensures
            r.wf(),
            r.ids() == self.registry_ids(),
            r.rows_view() == self.registry_rows(),
    {
        self.registry
    }

    /// The process exit status of a finished run: `0` after `Idle` or `Done`,
    /// `1` after `Failed`.
    pub fn exit_code(&self) -> (r: i32)
        requires
            self.spec_phase() == Phase::Idle || self.spec_phase() == Phase::Done
                || self.spec_phase() == Phase::Failed,
        ensures
            r == if self.spec_phase() == Phase::Failed {
                1int
            } else {
                0int
            },
    {
        match self.phase {
            Phase::Failed => 1,
            _ => 0,
        }
    }
}

/// Refresh discipline, read off any well-formed run state: a run that ended
/// with `Done` refreshed the credential exactly once and had new files to
/// send; a run that ended with `Idle` had none and never refreshed; no run
/// state ever holds more than one refresh.
pub proof fn lemma_refresh_discipline(p: Pipeline)
    requires
        p.wf(),
    ensures
        p.spec_phase() == Phase::Done ==> p.refresh_count() == 1 && p.pending_files().len() > 0,
        p.spec_phase() == Phase::Idle ==> p.refresh_count() == 0 && p.pending_files().len() == 0,
        0 <= p.refresh_count() <= 1,
{
}

/// Observed-before-notified, read off any well-formed run state: every file
/// in the pending set is already recorded in the registry, whether or not its
/// notification was — or ever will be — sent.
pub proof fn lemma_pending_always_recorded(p: Pipeline)
    requires
        p.wf(),
    ensures
        forall|i: int|
            0 <= i < p.pending_files().len() ==> p.registry_ids().contains(
                identity_of((#[trigger] p.pending_files()[i]).id)),
{
}

} // verus!
