//! The gateway's cross-verb laws, each proved once and for all over the
//! spec functions and views that the verb contracts use.

use vstd::prelude::*;

use crate::gateway::{spec_ticket_handle, Gateway, StatementEntry};
use crate::handle::{lemma_handle_text_round_trip, spec_handle_text, HANDLE_LEN, HANDLE_TEXT_LEN};
use crate::schema::ipc_bytes_of;
use crate::ticket::{lemma_ticket_round_trip, spec_ticket_bytes};

verus! {

/// A handshake's token immediately names the stored session, and issuing
/// it disturbs no other token: looking up the issued token succeeds with
/// that session, while a token never issued still fails.
pub proof fn law_handshake_token_lookup<S>(
    sessions: Map<Seq<u8>, S>,
    token: Seq<u8>,
    session: S,
    other: Seq<u8>,
)
    ensures
        sessions.insert(token, session).contains_key(token),
        sessions.insert(token, session)[token] == session,
        other != token ==> (sessions.insert(token, session).contains_key(other)
            <==> sessions.contains_key(other)),
        other != token && sessions.contains_key(other) ==> sessions.insert(token, session)[other]
            == sessions[other],
{
}

/// A minted ticket redeems to its own handle: the canonical envelope
/// around the canonical text of a handle decodes and parses back to
/// exactly that handle, so a fetch through the ticket that flight-info
/// minted resolves the same registry entry.
pub proof fn law_minted_ticket_redeems(handle: Seq<u8>)
    requires
        handle.len() == HANDLE_LEN,
    ensures
        spec_ticket_handle(spec_ticket_bytes(spec_handle_text(handle))) == Some(handle),
{
    lemma_handle_text_round_trip(handle);
    assert(spec_handle_text(handle).len() == HANDLE_TEXT_LEN);
    lemma_ticket_round_trip(spec_handle_text(handle));
}

/// Create, get-flight-info and fetch round-trip on the schema: for a
/// registered handle, the schema bytes that get-flight-info returns are
/// the serialization of the very schema that a fetch through the minted
/// ticket resolves.
pub proof fn law_flight_info_fetch_schema_agree<S, P>(g: Gateway<S, P>, handle: Seq<u8>)
    requires
        handle.len() == HANDLE_LEN,
        g.statements_map().contains_key(handle),
    ensures
        spec_ticket_handle(spec_ticket_bytes(spec_handle_text(handle))) == Some(handle),
        ipc_bytes_of(g.statements_map()[handle].schema@) == ipc_bytes_of(
            g.statements_map()[spec_ticket_handle(
                spec_ticket_bytes(spec_handle_text(handle)),
            ).unwrap()].schema@,
        ),
{
    law_minted_ticket_redeems(handle);
}

/// Close is idempotent and local: closing twice is closing once, closing
/// an absent handle changes nothing, and no other handle's entry is
/// affected.
pub proof fn law_close_idempotent<P>(
    statements: Map<Seq<u8>, StatementEntry<P>>,
    handle: Seq<u8>,
    other: Seq<u8>,
)
    ensures
        statements.remove(handle).remove(handle) == statements.remove(handle),
        !statements.contains_key(handle) ==> statements.remove(handle) == statements,
        other != handle ==> (statements.remove(handle).contains_key(other)
            <==> statements.contains_key(other)),
        other != handle && statements.contains_key(other) ==> statements.remove(handle)[other]
            == statements[other],
{
    assert(statements.remove(handle).remove(handle) =~= statements.remove(handle));
    if !statements.contains_key(handle) {
        assert(statements.remove(handle) =~= statements);
    }
}

/// After close, the closed handle's ticket no longer resolves: the
/// registry holds no entry for it, so a fetch answers not-found.  Before
/// close, the entry resolved is fixed by the registry alone, so a fetch
/// may be repeated any number of times with the same outcome.
pub proof fn law_fetch_after_close<P>(statements: Map<Seq<u8>, StatementEntry<P>>, handle: Seq<u8>)
    requires
        handle.len() == HANDLE_LEN,
    ensures
        spec_ticket_handle(spec_ticket_bytes(spec_handle_text(handle))) == Some(handle),
        !statements.remove(handle).contains_key(handle),
{
    law_minted_ticket_redeems(handle);
}

/// Distinct creates yield distinct handles: a create only succeeds on a
/// handle absent beforehand and registers it, so the handle of a second
/// successful create can never equal the first's, and both stay
/// registered.
pub proof fn law_created_handles_distinct<P>(
    before: Map<Seq<u8>, StatementEntry<P>>,
    h1: Seq<u8>,
    e1: StatementEntry<P>,
    h2: Seq<u8>,
    e2: StatementEntry<P>,
)
    requires
        !before.contains_key(h1),
        !before.insert(h1, e1).contains_key(h2),
    ensures
        h1 != h2,
        before.insert(h1, e1).insert(h2, e2).contains_key(h1),
        before.insert(h1, e1).insert(h2, e2).contains_key(h2),
        before.insert(h1, e1).insert(h2, e2)[h1] == e1,
        before.insert(h1, e1).insert(h2, e2)[h2] == e2,
{
}

} // verus!
