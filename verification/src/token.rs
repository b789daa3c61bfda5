//! Construction of the one token-endpoint exchange a run may perform: the
//! refresh-token grant submitted to the identity provider for the configured
//! tenant.

use vstd::prelude::*;
use vstd::string::StringExecFns;

use crate::data::{Credential, Secrets};

verus! {

/// One refresh-token exchange, ready for the transport layer to form-encode
/// and post.
pub struct RefreshRequest {
    /// The tenant-scoped token endpoint.
    pub url: String,
    /// Always the refresh-token grant.
    pub grant_type: String,
    /// From the static secrets.
    pub client_id: String,
    /// From the static secrets.
    pub client_secret: String,
    /// From the current credential.
    pub refresh_token: String,
    /// From the current credential.
    pub scope: String,
}

/// Mathematical view of a [`RefreshRequest`].
pub struct RefreshRequestView {
    pub url: Seq<char>,
    pub grant_type: Seq<char>,
    pub client_id: Seq<char>,
    pub client_secret: Seq<char>,
    pub refresh_token: Seq<char>,
    pub scope: Seq<char>,
}

impl View for RefreshRequest {
    type V = RefreshRequestView;

    open spec fn view(&self) -> RefreshRequestView {
        RefreshRequestView {
            url: self.url@,
            grant_type: self.grant_type@,
            client_id: self.client_id@,
            client_secret: self.client_secret@,
            refresh_token: self.refresh_token@,
            scope: self.scope@,
        }
    }
}

/// The identity provider's token endpoint for a tenant.
pub open spec fn token_url(tenant_id: Seq<char>) -> Seq<char> {
    "https://login.microsoftonline.com/"@ + tenant_id + "/oauth2/v2.0/token"@
}

/// Build the refresh-token exchange from the static secrets and the current
/// credential: client identity from the secrets, refresh token and scope from
/// the credential, aimed at the tenant's token endpoint.
pub fn build_refresh_request(secrets: &Secrets, credential: &Credential) -> (r: RefreshRequest)
    ensures
        r@.url == token_url(secrets@.tenant_id),
        r@.grant_type == "refresh_token"@,
        r@.client_id == secrets@.client_id,
        r@.client_secret == secrets@.client_secret,
        r@.refresh_token == credential@.refresh_token,
        r@.scope == credential@.scope,
{
    let mut url = "https://login.microsoftonline.com/".to_owned();
    url.append(secrets.tenant_id.as_str());
    url.append("/oauth2/v2.0/token");
    RefreshRequest {
        url,
        grant_type: "refresh_token".to_owned(),
        client_id: secrets.client_id.clone(),
        client_secret: secrets.client_secret.clone(),
        refresh_token: credential.refresh_token.clone(),
        scope: credential.scope.clone(),
    }
}

} // verus!
