//! Core data types: the remote file entry, the OAuth credential bundle, the
//! static application secrets, and the run error kinds.

use vstd::prelude::*;

verus! {

/// One entry of the remote file listing. Immutable once fetched; its identity
/// is the numeric coercion of `id`.
pub struct FileDetail {
    pub id: String,
    pub subject: String,
    pub link_download: String,
}

/// Mathematical view of a [`FileDetail`]: its three fields as character
/// sequences.
pub struct FileView {
    pub id: Seq<char>,
    pub subject: Seq<char>,
    pub link_download: Seq<char>,
}

impl View for FileDetail {
    type V = FileView;

    open spec fn view(&self) -> FileView {
        FileView { id: self.id@, subject: self.subject@, link_download: self.link_download@ }
    }
}

impl Clone for FileDetail {
    fn clone(&self) -> (r: Self)
        ensures
            r@ == self@,
    {
        FileDetail {
            id: self.id.clone(),
            subject: self.subject.clone(),
            link_download: self.link_download.clone(),
        }
    }
}

/// View of a sequence of file entries.
pub open spec fn views_of(l: Seq<FileDetail>) -> Seq<FileView> {
    l.map_values(|f: FileDetail| f@)
}

/// The OAuth2 token bundle. Loaded at run start, replaced wholesale by a
/// successful refresh, never partially updated.
pub struct Credential {
    pub token_type: String,
    pub scope: String,
    pub expires_in: i32,
    pub ext_expires_in: i32,
    pub access_token: String,
    pub refresh_token: String,
    pub id_token: String,
}

/// Mathematical view of a [`Credential`].
pub struct CredentialView {
    pub token_type: Seq<char>,
    pub scope: Seq<char>,
    pub expires_in: int,
    pub ext_expires_in: int,
    pub access_token: Seq<char>,
    pub refresh_token: Seq<char>,
    pub id_token: Seq<char>,
}

impl View for Credential {
    type V = CredentialView;

    open spec fn view(&self) -> CredentialView {
        CredentialView {
            token_type: self.token_type@,
            scope: self.scope@,
            expires_in: self.expires_in as int,
            ext_expires_in: self.ext_expires_in as int,
            access_token: self.access_token@,
            refresh_token: self.refresh_token@,
            id_token: self.id_token@,
        }
    }
}

impl Clone for Credential {
    fn clone(&self) -> (r: Self)
        ensures
            r@ == self@,
    {
        Credential {
            token_type: self.token_type.clone(),
            scope: self.scope.clone(),
            expires_in: self.expires_in,
            ext_expires_in: self.ext_expires_in,
            access_token: self.access_token.clone(),
            refresh_token: self.refresh_token.clone(),
            id_token: self.id_token.clone(),
        }
    }
}

/// The static application identity: tenant, client and chat target. Read-only,
/// provisioned out of band.
pub struct Secrets {
    pub tenant_id: String,
    pub client_id: String,
    pub client_secret: String,
    pub chat_id: String,
}

/// Mathematical view of [`Secrets`].
pub struct SecretsView {
    pub tenant_id: Seq<char>,
    pub client_id: Seq<char>,
    pub client_secret: Seq<char>,
    pub chat_id: Seq<char>,
}

impl View for Secrets {
    type V = SecretsView;

    open spec fn view(&self) -> SecretsView {
        SecretsView {
            tenant_id: self.tenant_id@,
            client_id: self.client_id@,
            client_secret: self.client_secret@,
            chat_id: self.chat_id@,
        }
    }
}

impl Clone for Secrets {
    fn clone(&self) -> (r: Self)
        ensures
            r@ == self@,
    {
        Secrets {
            tenant_id: self.tenant_id.clone(),
            client_id: self.client_id.clone(),
            client_secret: self.client_secret.clone(),
            chat_id: self.chat_id.clone(),
        }
    }
}

/// The error kinds a run can terminate with. Every one is fatal: the run
/// aborts and the process exits non-zero.
#[derive(Clone, Copy, Debug, PartialEq, Eq, Structural)]
pub enum RunError {
    /// Missing or unparsable secrets or credential document.
    Config,
    /// The catalog transport call failed.
    RemoteFetch,
    /// The catalog envelope did not parse or lacked a required field.
    MalformedResponse,
    /// Registry storage failed.
    Storage,
    /// A registry insert hit an already-present key.
    DuplicateKey,
    /// The token refresh failed or its body was unparsable.
    Auth,
    /// A single notification call failed.
    Notify,
}

} // verus!
