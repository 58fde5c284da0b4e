//! Registered services: their model, their stored rows and their status.
use vstd::prelude::*;

use crate::digest::{hash_secret, sha256_hex_of, simple_hash, simple_hash_of};
use crate::error::BmsgError;
use crate::external::{
    encode_string_list, json_error_text, json_of_strings, json_string_list, parse_string_list,
};
use crate::text::copy_strings;

verus! {

/// Whether a registered service is reachable.
#[derive(Debug, Clone, Copy, PartialEq, Eq, Structural)]
pub enum ServiceStatus {
    Online,
    Offline,
}

impl ServiceStatus {
    /// The stored and displayed name of a status.
    pub open spec fn spec_name(self) -> Seq<char> {
        match self {
            ServiceStatus::Online => "online"@,
            ServiceStatus::Offline => "offline"@,
        }
    }

    /// The status that a stored status text stands for: `online` is online,
    /// every other text offline.
    pub open spec fn spec_from_text(text: Seq<char>) -> ServiceStatus {
        if text == "online"@ {
            ServiceStatus::Online
        } else {
            ServiceStatus::Offline
        }
    }

    /// The display form: `online` or `offline`.
    pub fn to_string(&self) -> (s: String)
        ensures
            s@ == self.spec_name(),
    {
        match self {
            ServiceStatus::Online => String::from_str("online"),
            ServiceStatus::Offline => String::from_str("offline"),
        }
    }

    /// Reads a stored status text.
    pub fn from_text(text: &str) -> (s: ServiceStatus)
        ensures
            s == ServiceStatus::spec_from_text(text@),
    {
        if crate::text::str_eq(text, "online") {
            ServiceStatus::Online
        } else {
            ServiceStatus::Offline
        }
    }
}

/// Reading back the stored name of a status gives the status.
pub proof fn lemma_status_text_roundtrip(s: ServiceStatus)
    ensures
        ServiceStatus::spec_from_text(s.spec_name()) == s,
{
    reveal_strlit("online");
    reveal_strlit("offline");
    if s == ServiceStatus::Offline {
        assert("offline"@[1] != "online"@[1]);
    }
}

/// A service that receives the messages routed to it.
#[derive(Debug)]
pub struct RegisteredService {
    pub id: String,
    pub name: String,
    pub endpoint: String,
    pub app_package: String,
    pub platforms: Vec<String>,
    pub secret_hash: String,
    pub status: ServiceStatus,
    pub last_heartbeat: i64,
    pub created_at: i64,
}

/// The mathematical model of a registered service: its texts as character
/// sequences, its platforms as a sequence of them.
pub struct ServiceView {
    pub id: Seq<char>,
    pub name: Seq<char>,
    pub endpoint: Seq<char>,
    pub app_package: Seq<char>,
    pub platforms: Seq<Seq<char>>,
    pub secret_hash: Seq<char>,
    pub status: ServiceStatus,
    pub last_heartbeat: i64,
    pub created_at: i64,
}

impl View for RegisteredService {
    type V = ServiceView;

    open spec fn view(&self) -> ServiceView {
        ServiceView {
            id: self.id@,
            name: self.name@,
            endpoint: self.endpoint@,
            app_package: self.app_package@,
            platforms: self.platforms.deep_view(),
            secret_hash: self.secret_hash@,
            status: self.status,
            last_heartbeat: self.last_heartbeat,
            created_at: self.created_at,
        }
    }
}

impl DeepView for RegisteredService {
    type V = ServiceView;

    open spec fn deep_view(&self) -> ServiceView {
        self@
    }
}

impl Clone for RegisteredService {
    fn clone(&self) -> (r: Self)
        ensures
            r@ == self@,
    {
        RegisteredService {
            id: self.id.clone(),
            name: self.name.clone(),
            endpoint: self.endpoint.clone(),
            app_package: self.app_package.clone(),
            platforms: copy_strings(&self.platforms),
            secret_hash: self.secret_hash.clone(),
            status: self.status,
            last_heartbeat: self.last_heartbeat,
            created_at: self.created_at,
        }
    }
}

/// A request to register a service.
#[derive(Debug)]
pub struct RegisterRequest {
    pub name: String,
    pub endpoint: String,
    pub app_package: String,
    pub platforms: Vec<String>,
    pub secret: String,
}

impl RegisteredService {
    /// Whether `s` is the service registered from `req` under `id` at `now`.
    pub open spec fn registered_from(
        s: RegisteredService,
        req: RegisterRequest,
        id: Seq<char>,
        secret_hash: Seq<char>,
        now: i64,
    ) -> bool {
        &&& s.id@ == id
        &&& s.name@ == req.name@
        &&& s.endpoint@ == req.endpoint@
        &&& s.app_package@ == req.app_package@
        &&& s.platforms.deep_view() == req.platforms.deep_view()
        &&& s.secret_hash@ == secret_hash
        &&& s.status == ServiceStatus::Online
        &&& s.last_heartbeat == now
        &&& s.created_at == now
    }

    /// The service that a registration creates: online, last seen and
    /// created at `now`, with the hash of its secret (never the secret).
    pub fn from_request(req: &RegisterRequest, id: String, secret_hash: String, now: i64) -> (s:
        RegisteredService)
        ensures
            RegisteredService::registered_from(s, *req, id@, secret_hash@, now),
    {
        let platforms = copy_strings(&req.platforms);
        proof {
            assert(platforms.deep_view() =~= req.platforms.deep_view());
        }
        RegisteredService {
            id,
            name: req.name.clone(),
            endpoint: req.endpoint.clone(),
            app_package: req.app_package.clone(),
            platforms,
            secret_hash,
            status: ServiceStatus::Online,
            last_heartbeat: now,
            created_at: now,
        }
    }
}

/// Whether `r` is a registration of `req`: the service registered under `id`
/// at `now` with the given secret hash, and the JSON text of its platforms.
pub open spec fn registration(
    r: (RegisteredService, String),
    req: RegisterRequest,
    id: Seq<char>,
    secret_hash: Seq<char>,
    now: i64,
) -> bool {
    &&& RegisteredService::registered_from(r.0, req, id, secret_hash, now)
    &&& r.1@ == json_of_strings(req.platforms.deep_view())
}

/// The service that a Cloudflare registration stores, with the JSON text of
/// its platforms: the secret is kept only as its `simple_hash`.
pub fn kv_registration(req: &RegisterRequest, id: String, now: i64) -> (r: Result<
    (RegisteredService, String),
    BmsgError,
>)
    ensures
        r matches Ok(rec) && registration(rec, *req, id@, simple_hash_of(req.secret@), now),
{
    let secret_hash = simple_hash(req.secret.as_str());
    let platforms_json = match encode_string_list(&req.platforms) {
        Ok(text) => text,
        Err(e) => return Err(BmsgError::RegistryError(json_error_text(&e))),
    };
    Ok((RegisteredService::from_request(req, id, secret_hash, now), platforms_json))
}

/// The service that a Vercel registration stores, with the JSON text of its
/// platforms: the secret is kept only as its SHA-256 hex (`hash_secret`).
pub fn upstash_registration(req: &RegisterRequest, id: String, now: i64) -> (r: Result<
    (RegisteredService, String),
    BmsgError,
>)
    ensures
        r matches Ok(rec) && registration(rec, *req, id@, sha256_hex_of(req.secret@), now),
{
    let secret_hash = hash_secret(req.secret.as_str());
    let platforms_json = match encode_string_list(&req.platforms) {
        Ok(text) => text,
        Err(e) => return Err(BmsgError::RegistryError(json_error_text(&e))),
    };
    Ok((RegisteredService::from_request(req, id, secret_hash, now), platforms_json))
}

/// A service as the `bmsg_services` table stores it: the platforms as JSON
/// text and the status as its name.
#[derive(Debug)]
pub struct ServiceRow {
    pub id: String,
    pub name: String,
    pub endpoint: String,
    pub app_package: String,
    pub platforms: String,
    pub secret_hash: String,
    pub status: String,
    pub last_heartbeat: i64,
    pub created_at: i64,
}

impl ServiceRow {
    /// Whether `s` is the service that `row` stores, with these platforms.
    pub open spec fn stores(row: ServiceRow, platforms: Seq<Seq<char>>, s: RegisteredService) -> bool {
        &&& s.id == row.id
        &&& s.name == row.name
        &&& s.endpoint == row.endpoint
        &&& s.app_package == row.app_package
        &&& s.platforms.deep_view() == platforms
        &&& s.secret_hash == row.secret_hash
        &&& s.status == ServiceStatus::spec_from_text(row.status@)
        &&& s.last_heartbeat == row.last_heartbeat
        &&& s.created_at == row.created_at
    }

    /// The service of a row, given its decoded platform list.
    pub fn with_platforms(self, platforms: Vec<String>) -> (s: RegisteredService)
        ensures
            ServiceRow::stores(self, platforms.deep_view(), s),
            s.id@ == self.id@ && s.name@ == self.name@ && s.endpoint@ == self.endpoint@
                && s.app_package@ == self.app_package@ && s.secret_hash@ == self.secret_hash@,
    {
        let status = ServiceStatus::from_text(self.status.as_str());
        RegisteredService {
            id: self.id,
            name: self.name,
            endpoint: self.endpoint,
            app_package: self.app_package,
            platforms,
            secret_hash: self.secret_hash,
            status,
            last_heartbeat: self.last_heartbeat,
            created_at: self.created_at,
        }
    }

    /// Decodes a stored row. Fails with a registry error exactly when the
    /// platforms column is not a JSON array of strings.
    pub fn into_service(self) -> (r: Result<RegisteredService, BmsgError>)
        ensures
            r is Ok <==> json_string_list(self.platforms@) is Some,
            r matches Ok(s) ==> ServiceRow::stores(self, json_string_list(self.platforms@)->0, s),
            r matches Ok(s) ==> s.id@ == self.id@ && s.name@ == self.name@ && s.endpoint@
                == self.endpoint@ && s.app_package@ == self.app_package@ && s.secret_hash@
                == self.secret_hash@,
            r matches Err(e) ==> e is RegistryError,
    {
        match parse_string_list(self.platforms.as_str()) {
            Ok(platforms) => Ok(self.with_platforms(platforms)),
            Err(e) => Err(BmsgError::RegistryError(json_error_text(&e))),
        }
    }
}

/// Decoding a service row puts each text column into the field of the same
/// name, the status by its name and the times as they are.
pub proof fn lemma_service_row_columns(row: ServiceRow, platforms: Seq<Seq<char>>, s: RegisteredService)
    requires
        ServiceRow::stores(row, platforms, s),
    ensures
        s.id@ == row.id@,
        s.name@ == row.name@,
        s.endpoint@ == row.endpoint@,
        s.app_package@ == row.app_package@,
        s.secret_hash@ == row.secret_hash@,
        s.platforms.deep_view() == platforms,
        row.status@ == "online"@ ==> s.status == ServiceStatus::Online,
        row.status@ != "online"@ ==> s.status == ServiceStatus::Offline,
        s.last_heartbeat == row.last_heartbeat,
        s.created_at == row.created_at,
{
}

/// A registration keeps each of the request's texts in the field of the same
/// name and stores the given hash, never the secret (unless the hash is it).
pub proof fn lemma_registration_fields(
    s: RegisteredService,
    req: RegisterRequest,
    id: Seq<char>,
    secret_hash: Seq<char>,
    now: i64,
)
    requires
        RegisteredService::registered_from(s, req, id, secret_hash, now),
    ensures
        s.id@ == id,
        s.name@ == req.name@,
        s.endpoint@ == req.endpoint@,
        s.app_package@ == req.app_package@,
        s.platforms.deep_view() == req.platforms.deep_view(),
        s.secret_hash@ == secret_hash,
        secret_hash != req.secret@ ==> s.secret_hash@ != req.secret@,
        s.status == ServiceStatus::Online,
        s.last_heartbeat == now && s.created_at == now,
{
}

} // verus!
