//! The client registry: a static map from client identifier to its allowed
//! redirect URI and granted scope, loaded once at start and never mutated.

use vstd::prelude::*;

use crate::error::AuthError;
use crate::scope::spec_scope_within_chars;
use crate::scope::scope_within;

verus! {

/// One registered client application.
pub struct ClientData {
    /// Unique client identifier.
    pub client_id: String,
    /// The one redirect URI the client may use, matched exactly.
    pub url: String,
    /// The scope granted to the client, as space-delimited tokens.
    pub scope: String,
}

/// The immutable registry of client applications.
pub struct ClientRegistry {
    pub clients: Vec<ClientData>,
}

/// The first client in `clients` whose identifier is `id`, if any.
pub open spec fn spec_lookup(clients: Seq<ClientData>, id: Seq<char>) -> Option<ClientData>
    decreases clients.len(),
{
    if clients.len() == 0 {
        None
    } else if clients[0].client_id@ == id {
        Some(clients[0])
    } else {
        spec_lookup(clients.drop_first(), id)
    }
}

/// What validating an authorization request against the registry yields:
/// the client must be registered, the redirect URI must match the
/// registered one exactly, and the requested scope must stay within the
/// granted one.
pub open spec fn spec_validate(
    clients: Seq<ClientData>,
    client_id: Seq<char>,
    redirect_uri: Seq<char>,
    scope: Seq<char>,
) -> Result<ClientData, AuthError> {
    match spec_lookup(clients, client_id) {
        None => Err(AuthError::ClientNotRegistered),
        Some(c) => if c.url@ != redirect_uri {
            Err(AuthError::RedirectMismatch)
        } else if !spec_scope_within_chars(scope, c.scope@) {
            Err(AuthError::ScopeNotGranted)
        } else {
            Ok(c)
        },
    }
}

impl ClientRegistry {
    /// Client identifiers are unique, so lookup by identifier is unambiguous.
    pub open spec fn wf(self) -> bool {
        forall|i: int, j: int|
            0 <= i < j < self.clients@.len() ==> self.clients@[i].client_id@
                != self.clients@[j].client_id@
    }

    /// Looks a client up by its identifier.
    pub fn lookup<'a>(&'a self, client_id: &String) -> (r: Option<&'a ClientData>)
        ensures
            match r {
                Some(c) => spec_lookup(self.clients@, client_id@) == Some(*c),
                None => spec_lookup(self.clients@, client_id@) is None,
            },
    {
        let n = self.clients.len();
        proof {
            assert(self.clients@.skip(0) =~= self.clients@);
        }
        let mut i: usize = 0;
        while i < n
            invariant
                n == self.clients@.len(),
                0 <= i <= n,
                spec_lookup(self.clients@, client_id@) == spec_lookup(
                    self.clients@.skip(i as int),
                    client_id@,
                ),
            decreases n - i,
        {
            proof {
                assert(self.clients@.skip(i as int).drop_first() =~= self.clients@.skip(i + 1));
                assert(self.clients@.skip(i as int)[0] == self.clients@[i as int]);
            }
            if self.clients[i].client_id == *client_id {
                return Some(&self.clients[i]);
            }
            i = i + 1;
        }
        proof {
            assert(self.clients@.skip(n as int) =~= Seq::<ClientData>::empty());
        }
        None
    }

    /// Validates an authorization request against the registry: the client
    /// must be registered, the redirect URI must match the registered one
    /// exactly, and the requested scope must stay within the granted one.
    pub fn validate<'a>(
        &'a self,
        client_id: &String,
        redirect_uri: &String,
        requested_scope: &String,
    ) -> (r: Result<&'a ClientData, AuthError>)
        ensures
            match r {
                Ok(c) => spec_validate(self.clients@, client_id@, redirect_uri@, requested_scope@)
                    == Ok::<ClientData, AuthError>(*c),
                Err(e) => spec_validate(self.clients@, client_id@, redirect_uri@, requested_scope@)
                    == Err::<ClientData, AuthError>(e),
            },
    {
        let c = match self.lookup(client_id) {
            Some(c) => c,
            None => {
                return Err(AuthError::ClientNotRegistered);
            },
        };
        if !(c.url == *redirect_uri) {
            return Err(AuthError::RedirectMismatch);
        }
        if !scope_within(requested_scope.as_str(), c.scope.as_str()) {
            return Err(AuthError::ScopeNotGranted);
        }
        Ok(c)
    }
}

/// Every registered client: for each one, its identifier, redirect URI and
/// granted scope, exactly as deployed.
pub fn client_registry() -> (r: ClientRegistry)
    ensures
        r.wf(),
        r.clients@.len() == 7,
        r.clients@[0].client_id@ == "dashboard"@,
        r.clients@[0].url@ == "https://dash.purduehackers.com/api/callback"@,
        r.clients@[0].scope@ == "user:read"@,
        r.clients@[1].client_id@ == "passports"@,
        r.clients@[1].url@ == "https://passports.purduehackers.com/callback"@,
        r.clients@[1].scope@ == "user:read user"@,
        r.clients@[2].client_id@ == "authority"@,
        r.clients@[2].url@ == "authority://callback"@,
        r.clients@[2].scope@ == "admin:read admin"@,
        r.clients@[3].client_id@ == "auth-test"@,
        r.clients@[3].url@ == "https://id-auth.purduehackers.com/api/auth/callback/purduehackers-id"@,
        r.clients@[3].scope@ == "user:read"@,
        r.clients@[4].client_id@ == "vulcan-auth"@,
        r.clients@[4].url@ == "https://auth.purduehackers.com/source/oauth/callback/purduehackers-id/"@,
        r.clients@[4].scope@ == "user:read"@,
        r.clients@[5].client_id@ == "shad-moe"@,
        r.clients@[5].url@ == "https://auth.shad.moe/source/oauth/callback/purduehackers-id/"@,
        r.clients@[5].scope@ == "user:read"@,
        r.clients@[6].client_id@ == "shquid"@,
        r.clients@[6].url@ == "https://www.imsqu.id/auth/callback/purduehackers-id"@,
        r.clients@[6].scope@ == "user:read"@,
{
    let mut clients: Vec<ClientData> = Vec::new();
    clients.push(
        ClientData {
            client_id: "dashboard".to_owned(),
            url: "https://dash.purduehackers.com/api/callback".to_owned(),
            scope: "user:read".to_owned(),
        },
    );
    clients.push(
        ClientData {
            client_id: "passports".to_owned(),
            url: "https://passports.purduehackers.com/callback".to_owned(),
            scope: "user:read user".to_owned(),
        },
    );
    clients.push(
        ClientData {
            client_id: "authority".to_owned(),
            url: "authority://callback".to_owned(),
            scope: "admin:read admin".to_owned(),
        },
    );
    clients.push(
        ClientData {
            client_id: "auth-test".to_owned(),
            url: "https://id-auth.purduehackers.com/api/auth/callback/purduehackers-id".to_owned(),
            scope: "user:read".to_owned(),
        },
    );
    clients.push(
        ClientData {
            client_id: "vulcan-auth".to_owned(),
            url: "https://auth.purduehackers.com/source/oauth/callback/purduehackers-id/".to_owned(),
            scope: "user:read".to_owned(),
        },
    );
    clients.push(
        ClientData {
            client_id: "shad-moe".to_owned(),
            url: "https://auth.shad.moe/source/oauth/callback/purduehackers-id/".to_owned(),
            scope: "user:read".to_owned(),
        },
    );
    clients.push(
        ClientData {
            client_id: "shquid".to_owned(),
            url: "https://www.imsqu.id/auth/callback/purduehackers-id".to_owned(),
            scope: "user:read".to_owned(),
        },
    );
    let r = ClientRegistry { clients };
    proof {
        reveal_strlit("dashboard");
        reveal_strlit("passports");
        reveal_strlit("authority");
        reveal_strlit("auth-test");
        reveal_strlit("vulcan-auth");
        reveal_strlit("shad-moe");
        reveal_strlit("shquid");
        assert("dashboard"@[0] == 'd' && "passports"@[0] == 'p' && "authority"@[1] == 'u'
            && "auth-test"@[4] == '-' && "authority"@[4] == 'o' && "dashboard"@[1] == 'a');
        assert("dashboard"@ != "passports"@);
        assert("dashboard"@ != "authority"@);
        assert("dashboard"@ != "auth-test"@);
        assert("passports"@ != "authority"@);
        assert("passports"@ != "auth-test"@);
        assert("authority"@ != "auth-test"@);
        assert("dashboard"@.len() == 9 && "passports"@.len() == 9 && "authority"@.len() == 9
            && "auth-test"@.len() == 9 && "vulcan-auth"@.len() == 11 && "shad-moe"@.len() == 8
            && "shquid"@.len() == 6);
        assert(r.clients@[0].client_id@ == "dashboard"@);
        assert(r.clients@[1].client_id@ == "passports"@);
        assert(r.clients@[2].client_id@ == "authority"@);
        assert(r.clients@[3].client_id@ == "auth-test"@);
        assert(r.clients@[4].client_id@ == "vulcan-auth"@);
        assert(r.clients@[5].client_id@ == "shad-moe"@);
        assert(r.clients@[6].client_id@ == "shquid"@);
        assert forall|i: int, j: int|
            0 <= i < j < r.clients@.len() implies r.clients@[i].client_id@
            != r.clients@[j].client_id@ by {
            assert(0 <= i < 7 && 0 <= j < 7);
        }
        assert(r.wf());
    }
    r
}

/// Lookup in a well-formed registry returns each registered client exactly:
/// for every registered client, looking its identifier up yields that very
/// entry, with its registered redirect URI and granted scope.
pub proof fn lemma_lookup_registered(clients: Seq<ClientData>, k: int)
    requires
        forall|i: int, j: int|
            0 <= i < j < clients.len() ==> clients[i].client_id@ != clients[j].client_id@,
        0 <= k < clients.len(),
    ensures
        spec_lookup(clients, clients[k].client_id@) == Some(clients[k]),
    decreases clients.len(),
{
    if k == 0 {
    } else {
        assert(clients[0].client_id@ != clients[k].client_id@);
        lemma_lookup_registered(clients.drop_first(), k - 1);
        assert(clients.drop_first()[k - 1] == clients[k]);
    }
}

} // verus!
