//! The protocol dispatcher: one verified decision function per wire verb.
//!
//! The gateway owns the two process-wide registries — the token-keyed
//! session store and the handle-keyed prepared-statement registry — and
//! performs every protocol decision over plain values.  External
//! collaborators (the authenticator, the planner, the executor) run
//! outside of it; their results are handed in as arguments, so each verb
//! is verified for every value they may produce.

use vstd::prelude::*;
use vstd::slice::slice_to_vec;

use crate::handle::{
    handle_text, is_handle_text, parse_handle_text, spec_handle_text, spec_text_bytes, HANDLE_LEN,
};
use crate::schema::{ipc_bytes_of, schema_ipc_bytes, Schema};
use crate::table::ByteTable;
use crate::ticket::{append_bytes, decode_ticket, encode_ticket, spec_decode, spec_ticket_bytes};

verus! {

/// The wire verbs this gateway does not implement.  Each must fail with a
/// distinct unimplemented status naming the verb, never silently succeed.
#[derive(Clone, Copy, Debug, PartialEq, Eq, Structural)]
pub enum Verb {
    GetFlightInfoStatement,
    GetFlightInfoCatalogs,
    GetFlightInfoSchemas,
    GetFlightInfoTables,
    GetFlightInfoTableTypes,
    GetFlightInfoSqlInfo,
    GetFlightInfoPrimaryKeys,
    GetFlightInfoExportedKeys,
    GetFlightInfoImportedKeys,
    GetFlightInfoCrossReference,
    DoGetStatement,
    DoGetPreparedStatement,
    DoGetCatalogs,
    DoGetSchemas,
    DoGetTables,
    DoGetTableTypes,
    DoGetSqlInfo,
    DoGetPrimaryKeys,
    DoGetExportedKeys,
    DoGetImportedKeys,
    DoGetCrossReference,
    DoPutStatementUpdate,
    DoPutPreparedStatementQuery,
    DoPutPreparedStatementUpdate,
}

/// The gateway's error taxonomy.  The transport maps each variant to its
/// wire status: malformed tickets and handles to invalid-argument,
/// `AuthFailed` to an authentication failure, `NotFound` and
/// `Unimplemented` to their own statuses, and `Internal` to an internal
/// error.  The library raises `Internal` only for a colliding handle
/// draw; the edge wraps external planner and executor failures in the
/// same status with the upstream message.
#[derive(Debug, PartialEq, Eq)]
pub enum GatewayError {
    AuthFailed,
    MalformedTicket(Vec<u8>),
    MalformedHandle,
    NotFound,
    Unimplemented(Verb),
    Internal(String),
}

/// One planned-but-not-yet-executed query: the externally produced plan
/// together with its result schema.
#[derive(Debug)]
pub struct StatementEntry<P> {
    pub plan: P,
    pub schema: Schema,
}

impl<P> StatementEntry<P> {
    /// This entry's schema in the wire's schema-exchange form, as the
    /// fetch path streams it ahead of the result batches.
    pub fn schema_ipc(&self) -> (r: Vec<u8>)
        ensures
            r@ == ipc_bytes_of(self.schema@),
    {
        schema_ipc_bytes(&self.schema)
    }
}

/// The streamed handshake answer: the raw token as payload, and the same
/// token as a bearer credential for the response metadata.
#[derive(Debug)]
pub struct HandshakeReply {
    pub payload: Vec<u8>,
    pub bearer: Vec<u8>,
}

/// The answer to a create-prepared-statement action.
#[derive(Debug)]
pub struct CreateStatementReply {
    pub handle_bytes: Vec<u8>,
    pub schema_bytes: Vec<u8>,
    pub parameter_schema: Vec<u8>,
}

/// The flight-info answer for a prepared statement: the serialized
/// schema, the minted ticket, and the advertised location.
#[derive(Debug)]
pub struct FlightInfoReply {
    pub schema_bytes: Vec<u8>,
    pub ticket: Vec<u8>,
    pub location: String,
}

/// The ASCII bytes of the bearer prefix of the handshake metadata.
pub open spec fn spec_bearer_prefix() -> Seq<u8> {
    Seq::new("Bearer "@.len(), |i: int| "Bearer "@[i] as u8)
}

/// The full bearer credential for a token.
pub open spec fn spec_bearer(token: Seq<u8>) -> Seq<u8> {
    spec_bearer_prefix() + token
}

/// The advertised endpoint location: a fixed loopback placeholder that a
/// real deployment replaces with the serving node's address.
pub open spec fn spec_location() -> Seq<char> {
    "grpc+tcp://127.0.0.1"@
}

/// The handle a ticket denotes: the embedded text decoded and parsed, if
/// both steps succeed.
pub open spec fn spec_ticket_handle(t: Seq<u8>) -> Option<Seq<u8>> {
    match spec_decode(t) {
        Some(text) => if is_handle_text(text) {
            Some(spec_text_bytes(text))
        } else {
            None
        },
        None => None,
    }
}

/// Exec bearer prefix.
fn bearer_prefix_bytes() -> (r: Vec<u8>)
    ensures
        r@ == spec_bearer_prefix(),
{
    let s = "Bearer ";
    proof {
        reveal_strlit("Bearer ");
        assert(vstd::string::is_ascii(s));
        vstd::string::is_ascii_spec_bytes(s);
        vstd::utf8::is_ascii_chars_encode_utf8(s@);
    }
    let out = slice_to_vec(s.as_bytes());
    proof {
        assert(out@ =~= spec_bearer_prefix());
    }
    out
}

/// The uniform answer for an unsupported verb.
pub fn unsupported_verb(v: Verb) -> (r: GatewayError)
    ensures
        r == GatewayError::Unimplemented(v),
{
    GatewayError::Unimplemented(v)
}

/// Relies on `uuid::Uuid::new_v4` for a fresh random 128-bit identifier;
/// only its 16-byte width is assumed, never which bytes come back.
#[verifier::external_body]
fn random_handle_bytes() -> (r: Vec<u8>)
    ensures
        r@.len() == HANDLE_LEN,
{
    uuid::Uuid::new_v4().as_bytes().to_vec()
}

/// The protocol gateway: the session store and the statement registry,
/// together with the decision logic of every implemented verb.
pub struct Gateway<S, P> {
    sessions: ByteTable<S>,
    statements: ByteTable<StatementEntry<P>>,
}

impl<S, P> Gateway<S, P> {
    /// The session store's map: bearer token to session.
    pub closed spec fn sessions_map(&self) -> Map<Seq<u8>, S> {
        self.sessions@
    }

    /// The statement registry's map: raw handle bytes to entry.
    pub closed spec fn statements_map(&self) -> Map<Seq<u8>, StatementEntry<P>> {
        self.statements@
    }

    /// Does `token` name an authenticated session?
    pub open spec fn authed(&self, token: Seq<u8>) -> bool {
        self.sessions_map().contains_key(token)
    }

    /// A gateway with both registries empty.
    pub fn new() -> (r: Self)
        ensures
            r.sessions_map() == Map::<Seq<u8>, S>::empty(),
            r.statements_map() == Map::<Seq<u8>, StatementEntry<P>>::empty(),
    {
        Gateway { sessions: ByteTable::new(), statements: ByteTable::new() }
    }

    /// Finish a successful handshake: store the session under its token
    /// and frame the reply, with the raw token as stream payload and the
    /// bearer form for the response metadata.
    pub fn handshake_ok(&mut self, token: Vec<u8>, session: S) -> (r: HandshakeReply)
        ensures
            final(self).sessions_map() == old(self).sessions_map().insert(token@, session),
            final(self).statements_map() == old(self).statements_map(),
            r.payload@ == token@,
            r.bearer@ == spec_bearer(token@),
    {
        let payload = slice_to_vec(token.as_slice());
        let mut bearer = bearer_prefix_bytes();
        append_bytes(&mut bearer, &token);
        self.sessions.insert(token, session);
        HandshakeReply { payload, bearer }
    }

    /// The enforcement point of every authenticated verb: resolve a
    /// bearer token, failing on unknown tokens rather than ever creating
    /// a session.
    pub fn lookup_session(&self, token: &Vec<u8>) -> (r: Option<&S>)
        ensures
            match r {
                Some(s) => self.authed(token@) && *s == self.sessions_map()[token@],
                None => !self.authed(token@),
            },
    {
        self.sessions.get(token)
    }

    /// Register a freshly planned statement under `handle` and frame the
    /// create-prepared-statement answer.  The caller obtains `(plan,
    /// schema)` from the external planner and `handle` from a fresh
    /// random draw; a draw that collides with a live entry is refused, so
    /// a live handle is never reused.
    pub fn create_statement(
        &mut self,
        token: &Vec<u8>,
        handle: Vec<u8>,
        plan: P,
        schema: Schema,
    ) -> (r: Result<CreateStatementReply, GatewayError>)
        requires
            handle@.len() == HANDLE_LEN,
        ensures
            match r {
                Ok(rep) => {
                    &&& old(self).authed(token@)
                    &&& !old(self).statements_map().contains_key(handle@)
                    &&& final(self).statements_map() == old(self).statements_map().insert(
                        handle@,
                        (StatementEntry { plan, schema }),
                    )
                    &&& final(self).sessions_map() == old(self).sessions_map()
                    &&& rep.handle_bytes@ == handle@
                    &&& rep.schema_bytes@ == ipc_bytes_of(schema@)
                    &&& rep.parameter_schema@ == Seq::<u8>::empty()
                },
                Err(e) => {
                    &&& final(self).sessions_map() == old(self).sessions_map()
                    &&& final(self).statements_map() == old(self).statements_map()
                    &&& (e is AuthFailed <==> !old(self).authed(token@))
                    &&& (e is Internal <==> old(self).authed(token@)
                        && old(self).statements_map().contains_key(handle@))
                    &&& (e is AuthFailed || e is Internal)
                },
            },
            r is Ok <==> old(self).authed(token@) && !old(self).statements_map().contains_key(
                handle@,
            ),
    {
        if self.sessions.get(token).is_none() {
            return Err(GatewayError::AuthFailed);
        }
        if self.statements.contains(&handle) {
            return Err(GatewayError::Internal("statement handle already live".to_owned()));
        }
        let schema_bytes = schema_ipc_bytes(&schema);
        let handle_bytes = slice_to_vec(handle.as_slice());
        self.statements.insert(handle, StatementEntry { plan, schema });
        Ok(
            CreateStatementReply {
                handle_bytes,
                schema_bytes,
                parameter_schema: Vec::new(),
            },
        )
    }

    /// Register a planned statement under a freshly drawn random handle.
    pub fn create_statement_fresh(
        &mut self,
        token: &Vec<u8>,
        plan: P,
        schema: Schema,
    ) -> (r: Result<CreateStatementReply, GatewayError>)
        ensures
            match r {
                Ok(rep) => {
                    &&& old(self).authed(token@)
                    &&& rep.handle_bytes@.len() == HANDLE_LEN
                    &&& !old(self).statements_map().contains_key(rep.handle_bytes@)
                    &&& final(self).statements_map() == old(self).statements_map().insert(
                        rep.handle_bytes@,
                        (StatementEntry { plan, schema }),
                    )
                    &&& final(self).sessions_map() == old(self).sessions_map()
                    &&& rep.schema_bytes@ == ipc_bytes_of(schema@)
                    &&& rep.parameter_schema@ == Seq::<u8>::empty()
                },
                Err(e) => {
                    &&& final(self).sessions_map() == old(self).sessions_map()
                    &&& final(self).statements_map() == old(self).statements_map()
                    &&& (e is AuthFailed <==> !old(self).authed(token@))
                    &&& (e is Internal ==> old(self).authed(token@))
                    &&& (e is AuthFailed || e is Internal)
                },
            },
            !old(self).authed(token@) ==> r is Err,
    {
        let handle = random_handle_bytes();
        self.create_statement(token, handle, plan, schema)
    }

    /// Describe a prepared statement: serialize its schema and mint the
    /// ticket that a later fetch redeems, pointing at the advertised
    /// location.
    pub fn get_flight_info_prepared(&self, token: &Vec<u8>, handle: &Vec<u8>) -> (r: Result<
        FlightInfoReply,
        GatewayError,
    >)
        ensures
            match r {
                Ok(rep) => {
                    &&& self.authed(token@)
                    &&& handle@.len() == HANDLE_LEN
                    &&& self.statements_map().contains_key(handle@)
                    &&& rep.schema_bytes@ == ipc_bytes_of(self.statements_map()[handle@].schema@)
                    &&& rep.ticket@ == spec_ticket_bytes(spec_handle_text(handle@))
                    &&& rep.location@ == spec_location()
                },
                Err(e) => {
                    &&& (e is AuthFailed <==> !self.authed(token@))
                    &&& (e is MalformedHandle <==> self.authed(token@) && handle@.len()
                        != HANDLE_LEN)
                    &&& (e is NotFound <==> self.authed(token@) && handle@.len() == HANDLE_LEN
                        && !self.statements_map().contains_key(handle@))
                    &&& (e is AuthFailed || e is MalformedHandle || e is NotFound)
                },
            },
            r is Ok <==> self.authed(token@) && handle@.len() == HANDLE_LEN
                && self.statements_map().contains_key(handle@),
    {
        if self.sessions.get(token).is_none() {
            return Err(GatewayError::AuthFailed);
        }
        if handle.len() != HANDLE_LEN {
            return Err(GatewayError::MalformedHandle);
        }
        let entry = match self.statements.get(handle) {
            Some(e) => e,
            None => {
                return Err(GatewayError::NotFound);
            },
        };
        let schema_bytes = schema_ipc_bytes(&entry.schema);
        let text = handle_text(handle);
        let ticket = encode_ticket(&text);
        let location = "grpc+tcp://127.0.0.1".to_owned();
        Ok(FlightInfoReply { schema_bytes, ticket, location })
    }

    /// Redeem a ticket: decode it, parse the embedded handle text, and
    /// resolve the registered entry, whose plan the caller then executes
    /// against its schema.
    pub fn fetch(&self, token: &Vec<u8>, ticket: &Vec<u8>) -> (r: Result<
        &StatementEntry<P>,
        GatewayError,
    >)
        ensures
            match r {
                Ok(entry) => {
                    &&& self.authed(token@)
                    &&& spec_ticket_handle(ticket@) is Some
                    &&& self.statements_map().contains_key(spec_ticket_handle(ticket@).unwrap())
                    &&& *entry == self.statements_map()[spec_ticket_handle(ticket@).unwrap()]
                },
                Err(e) => {
                    &&& (e is AuthFailed <==> !self.authed(token@))
                    &&& (e is MalformedTicket <==> self.authed(token@) && spec_decode(ticket@)
                        is None)
                    &&& (e matches GatewayError::MalformedTicket(t) ==> t@ == ticket@)
                    &&& (e is MalformedHandle <==> self.authed(token@) && spec_decode(ticket@)
                        is Some && spec_ticket_handle(ticket@) is None)
                    &&& (e is NotFound <==> self.authed(token@) && spec_ticket_handle(ticket@)
                        is Some && !self.statements_map().contains_key(
                        spec_ticket_handle(ticket@).unwrap(),
                    ))
                    &&& (e is AuthFailed || e is MalformedTicket || e is MalformedHandle
                        || e is NotFound)
                },
            },
    {
        if self.sessions.get(token).is_none() {
            return Err(GatewayError::AuthFailed);
        }
        let text = match decode_ticket(ticket) {
            Some(t) => t,
            None => {
                return Err(GatewayError::MalformedTicket(slice_to_vec(ticket.as_slice())));
            },
        };
        let handle = match parse_handle_text(&text) {
            Some(h) => h,
            None => {
                return Err(GatewayError::MalformedHandle);
            },
        };
        match self.statements.get(&handle) {
            Some(entry) => Ok(entry),
            None => Err(GatewayError::NotFound),
        }
    }

    /// Close a prepared statement: parse the handle text and evict the
    /// entry.  Closing a handle that is absent — never created, or
    /// already closed — succeeds and changes nothing: close is
    /// idempotent.
    pub fn close_statement(&mut self, token: &Vec<u8>, handle_text_bytes: &Vec<u8>) -> (r: Result<
        (),
        GatewayError,
    >)
        ensures
            match r {
                Ok(_) => {
                    &&& old(self).authed(token@)
                    &&& is_handle_text(handle_text_bytes@)
                    &&& final(self).statements_map() == old(self).statements_map().remove(
                        spec_text_bytes(handle_text_bytes@),
                    )
                    &&& final(self).sessions_map() == old(self).sessions_map()
                },
                Err(e) => {
                    &&& final(self).sessions_map() == old(self).sessions_map()
                    &&& final(self).statements_map() == old(self).statements_map()
                    &&& (e is AuthFailed <==> !old(self).authed(token@))
                    &&& (e is MalformedHandle <==> old(self).authed(token@) && !is_handle_text(
                        handle_text_bytes@,
                    ))
                    &&& (e is AuthFailed || e is MalformedHandle)
                },
            },
    {
        if self.sessions.get(token).is_none() {
            return Err(GatewayError::AuthFailed);
        }
        let handle = match parse_handle_text(handle_text_bytes) {
            Some(h) => h,
            None => {
                return Err(GatewayError::MalformedHandle);
            },
        };
        self.statements.remove(&handle);
        Ok(())
    }
}

} // verus!
