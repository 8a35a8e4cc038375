//! Properties of the OAuth state that span several operations.

use vstd::prelude::*;
use crate::auth::{
    client_info, client_info_at, live_tokens_of, token_live, ClientInfoView, ClientView, TokenView,
    admin_token, admin_ttl_secs, after_token_request, approved_code, auth_decision_spec, auth_wf,
    authorize_page_html, authorize_page_result, bearer_challenge, bearer_token, elapsed_ms,
    first_prefix_match, issued_token, live_at, not_of_client, or_empty, pkce_matches,
    registered_client, token_admitted, token_refusal, AuthCodeEntry, AuthView, AuthorizeError,
    AuthorizeForm, AuthorizeQuery, RegisteredClient, RegistrationRequest, TokenEntry, TokenFailure, TokenRequest,
    AUTH_CODE_TTL_MS, TOKEN_TTL_MS,
};
use crate::keyed::{
    has_key, key_index, keys_unique, lemma_key_index_unique, lemma_lookup_filter, lemma_lookup_remove,
    lemma_lookup_upsert, lookup, remove_key, upsert,
};
use crate::strings::starts_with;

verus! {

/// The header `Bearer <token>` carries `token`.
pub proof fn lemma_bearer_header(token: Seq<char>)
    ensures
        bearer_token(Some("Bearer "@ + token)) == Some(token),
{
    let h = "Bearer "@ + token;
    assert(h.subrange(0, "Bearer "@.len() as int) =~= "Bearer "@);
    assert(starts_with(h, "Bearer "@));
    assert(h.subrange("Bearer "@.len() as int, h.len() as int) =~= token);
}

/// The state after approving an authorization request under `code`.
pub open spec fn after_approval(
    st: AuthView,
    form: AuthorizeForm,
    code: Seq<char>,
    now_ms: u64,
) -> AuthView {
    AuthView { codes: upsert::<AuthCodeEntry>(st.codes, approved_code(form, code, now_ms)), ..st }
}

/// A token that the token endpoint issues is let through by the bearer check, presented as
/// `Bearer <token>`, until one hour has passed since it was issued.
pub proof fn law_issued_token_admitted(
    st: AuthView,
    req: TokenRequest,
    now_ms: u64,
    now_epoch_ms: u64,
    token: Seq<char>,
    later_ms: u64,
)
    requires
        auth_wf(st),
        token_refusal(st, req, now_ms) is None,
        elapsed_ms(now_ms, later_ms) < TOKEN_TTL_MS,
    ensures
        auth_decision_spec(
            after_token_request(st, req, now_ms, now_epoch_ms, token),
            Some("Bearer "@ + token),
            later_ms,
        ) is None,
{
    lemma_bearer_header(token);
    lemma_lookup_upsert::<TokenEntry>(
        st.tokens,
        issued_token(token, req.client_id@, now_ms, now_epoch_ms),
        token,
    );
}

/// Once an hour has passed, the bearer check refuses that token as invalid or expired.
pub proof fn law_issued_token_expires(
    st: AuthView,
    req: TokenRequest,
    now_ms: u64,
    now_epoch_ms: u64,
    token: Seq<char>,
    later_ms: u64,
)
    requires
        auth_wf(st),
        token_refusal(st, req, now_ms) is None,
        elapsed_ms(now_ms, later_ms) >= TOKEN_TTL_MS,
    ensures
        auth_decision_spec(
            after_token_request(st, req, now_ms, now_epoch_ms, token),
            Some("Bearer "@ + token),
            later_ms,
        ) == Some((bearer_challenge(st.base_url, true), "invalid or expired token"@)),
{
    lemma_bearer_header(token);
    lemma_lookup_upsert::<TokenEntry>(
        st.tokens,
        issued_token(token, req.client_id@, now_ms, now_epoch_ms),
        token,
    );
}

/// An authorization code is used up by the first token request that presents it with the
/// `authorization_code` grant, whatever that request is answered: presenting it again is
/// refused as an unknown code.
pub proof fn law_code_single_use(
    st: AuthView,
    req: TokenRequest,
    now_ms: u64,
    now_epoch_ms: u64,
    token: Seq<char>,
    later_ms: u64,
)
    requires
        auth_wf(st),
        req.grant_type@ == "authorization_code"@,
    ensures
        !has_key::<AuthCodeEntry>(
            after_token_request(st, req, now_ms, now_epoch_ms, token).codes,
            req.code@,
        ),
        token_refusal(after_token_request(st, req, now_ms, now_epoch_ms, token), req, later_ms)
            == Some(TokenFailure::UnknownCode),
{
    lemma_lookup_remove::<AuthCodeEntry>(st.codes, req.code@, req.code@);
}

/// A token request that presents an approved code within ten minutes, from the client it was
/// approved for, with its redirect URI (or none) and a verifier matching its challenge, is
/// granted.
pub proof fn law_approved_code_redeemable(
    st: AuthView,
    form: AuthorizeForm,
    code: Seq<char>,
    approve_ms: u64,
    req: TokenRequest,
    exchange_ms: u64,
)
    requires
        auth_wf(st),
        req.grant_type@ == "authorization_code"@,
        req.code@ == code,
        req.client_id@ == form.client_id@,
        req.redirect_uri.deep_view() is None || req.redirect_uri.deep_view() == Some(
            form.redirect_uri@,
        ),
        req.code_verifier is Some,
        pkce_matches(
            or_empty(req.code_verifier.deep_view()),
            or_empty(form.code_challenge.deep_view()),
        ),
        elapsed_ms(approve_ms, exchange_ms) <= AUTH_CODE_TTL_MS,
    ensures
        token_refusal(after_approval(st, form, code, approve_ms), req, exchange_ms) is None,
{
    lemma_lookup_upsert::<AuthCodeEntry>(st.codes, approved_code(form, code, approve_ms), code);
}

/// A token request is granted only with a code verifier that matches the stored challenge
/// (PKCE is mandatory).
pub proof fn law_pkce_required(st: AuthView, req: TokenRequest, now_ms: u64)
    requires
        token_refusal(st, req, now_ms) is None,
    ensures
        req.code_verifier is Some,
        lookup::<AuthCodeEntry>(st.codes, req.code@) matches Some(e) && pkce_matches(
            or_empty(req.code_verifier.deep_view()),
            e.code_challenge,
        ),
{
}

/// After a client is revoked, no token that was issued to it gets through the bearer check.
pub proof fn law_revoked_client_tokens_refused(
    st: AuthView,
    client_id: Seq<char>,
    token: Seq<char>,
    now_ms: u64,
)
    requires
        auth_wf(st),
        lookup::<TokenEntry>(st.tokens, token) matches Some(t) && t.client_id == client_id,
    ensures
        !token_admitted(
            AuthView { tokens: st.tokens.filter(not_of_client(client_id)), ..st },
            token,
            now_ms,
        ),
{
    lemma_lookup_filter::<TokenEntry>(st.tokens, not_of_client(client_id), token);
}

/// Evicting expired state does not change which tokens the bearer check lets through at that
/// time.
pub proof fn law_eviction_keeps_admission(st: AuthView, now_ms: u64, token: Seq<char>)
    requires
        auth_wf(st),
    ensures
        token_admitted(
            AuthView { tokens: st.tokens.filter(live_at(now_ms)), ..st },
            token,
            now_ms,
        ) == token_admitted(st, token, now_ms),
{
    lemma_lookup_filter::<TokenEntry>(st.tokens, live_at(now_ms), token);
}

/// A token revoked by prefix no longer gets through the bearer check: the first stored token
/// that starts with the prefix is the one removed.
pub proof fn law_revoked_token_refused(st: AuthView, prefix: Seq<char>, i: int, now_ms: u64)
    requires
        auth_wf(st),
        first_prefix_match(st.tokens, prefix, i),
    ensures
        starts_with(st.tokens[i].token, prefix),
        !token_admitted(AuthView { tokens: st.tokens.remove(i), ..st }, st.tokens[i].token, now_ms),
{
    let k = st.tokens[i].token;
    lemma_key_index_unique::<TokenEntry>(st.tokens, i);
    assert(remove_key::<TokenEntry>(st.tokens, k) == st.tokens.remove(i));
    lemma_lookup_remove::<TokenEntry>(st.tokens, k, k);
}

/// A token minted from the admin panel gets through the bearer check exactly while its
/// lifetime (the requested one, at most 365 days) has not run out.
pub proof fn law_admin_token_lifetime(
    st: AuthView,
    token: Seq<char>,
    label: Option<Seq<char>>,
    ttl_secs: u64,
    now_ms: u64,
    now_epoch_ms: u64,
    later_ms: u64,
)
    requires
        auth_wf(st),
    ensures
        auth_decision_spec(
            AuthView {
                tokens: upsert::<TokenEntry>(
                    st.tokens,
                    admin_token(token, label, ttl_secs, now_ms, now_epoch_ms),
                ),
                ..st
            },
            Some("Bearer "@ + token),
            later_ms,
        ) is None <==> elapsed_ms(now_ms, later_ms) < admin_ttl_secs(ttl_secs) * 1000,
{
    lemma_bearer_header(token);
    lemma_lookup_upsert::<TokenEntry>(
        st.tokens,
        admin_token(token, label, ttl_secs, now_ms, now_epoch_ms),
        token,
    );
}

/// Once a client is registered with a redirect URI, an authorization request from it to that
/// URI, with an S256 code challenge, is shown the approval page.
pub proof fn law_registered_client_can_authorize(
    st: AuthView,
    client_id: Seq<char>,
    client_secret: Seq<char>,
    req: RegistrationRequest,
    now_epoch_ms: u64,
    q: AuthorizeQuery,
)
    requires
        keys_unique::<RegisteredClient>(st.clients),
        q.response_type@ == "code"@,
        q.client_id@ == client_id,
        req.redirect_uris.deep_view().contains(q.redirect_uri@),
        or_empty(q.code_challenge.deep_view()).len() > 0,
        q.code_challenge_method.deep_view() == Some("S256"@),
    ensures
        authorize_page_result(
            AuthView {
                clients: upsert::<RegisteredClient>(
                    st.clients,
                    registered_client(client_id, client_secret, req, now_epoch_ms),
                ),
                ..st
            },
            q,
        ) == Ok::<Seq<char>, AuthorizeError>(
            authorize_page_html(
                q.client_id@,
                q.redirect_uri@,
                or_empty(q.state.deep_view()),
                or_empty(q.code_challenge.deep_view()),
                q.scope.deep_view(),
            ),
        ),
{
    let c = registered_client(client_id, client_secret, req, now_epoch_ms);
    lemma_lookup_upsert::<RegisteredClient>(st.clients, c, client_id);
    let clients = upsert::<RegisteredClient>(st.clients, c);
    assert(has_key::<RegisteredClient>(clients, client_id));
}

/// The test that keeps the live tokens issued to `client_id`.
pub open spec fn live_token_of(client_id: Seq<char>, now_ms: u64) -> spec_fn(TokenView) -> bool {
    |t: TokenView| t.client_id == client_id && token_live(t, now_ms)
}

/// Counting a client's live tokens counts exactly those tokens.
proof fn lemma_live_tokens_of(tokens: Seq<TokenView>, client_id: Seq<char>, now_ms: u64)
    ensures
        live_tokens_of(tokens, client_id, now_ms) == tokens.filter(live_token_of(client_id, now_ms)).len(),
    decreases tokens.len(),
{
    if tokens.len() > 0 {
        let rest = tokens.drop_last();
        lemma_live_tokens_of(rest, client_id, now_ms);
        assert(rest.push(tokens.last()) =~= tokens);
        rest.lemma_filter_push(tokens.last(), live_token_of(client_id, now_ms));
    }
}

/// A client is listed with its own id, name, redirect URIs and registration time, and with the
/// number of live tokens issued to it (and to no other client).
pub proof fn law_client_listing(c: ClientView, tokens: Seq<TokenView>, now_ms: u64)
    ensures
        client_info(c, tokens, now_ms) == (ClientInfoView {
            client_id: c.client_id,
            client_name: c.client_name,
            redirect_uris: c.redirect_uris,
            registered_at_epoch_ms: c.registered_at_epoch_ms,
            active_tokens: tokens.filter(live_token_of(c.client_id, now_ms)).len(),
        }),
{
    lemma_live_tokens_of(tokens, c.client_id, now_ms);
}

/// Two clients whose live tokens are one each are listed with one token each.
pub proof fn law_token_counts_are_per_client(
    a: ClientView,
    b: ClientView,
    ta: TokenView,
    tb: TokenView,
    now_ms: u64,
)
    requires
        a.client_id != b.client_id,
        ta.client_id == a.client_id,
        tb.client_id == b.client_id,
        token_live(ta, now_ms),
        token_live(tb, now_ms),
    ensures
        client_info(a, seq![ta, tb], now_ms).active_tokens == 1,
        client_info(b, seq![ta, tb], now_ms).active_tokens == 1,
{
    let s = seq![ta, tb];
    assert(s.drop_last() =~= seq![ta]);
    assert(seq![ta].drop_last() =~= Seq::<TokenView>::empty());
    assert(s.last() == tb);
    assert(seq![ta].last() == ta);
    reveal_with_fuel(live_tokens_of, 3);
}

/// After a registration the client is stored, and listed, with exactly the credentials it was
/// given and the name, redirect URIs and time of the request.
pub proof fn law_registration_is_listed(
    st: AuthView,
    client_id: Seq<char>,
    client_secret: Seq<char>,
    req: RegistrationRequest,
    now_epoch_ms: u64,
    now_ms: u64,
)
    requires
        keys_unique::<RegisteredClient>(st.clients),
    ensures
        ({
            let clients = upsert::<RegisteredClient>(
                st.clients,
                registered_client(client_id, client_secret, req, now_epoch_ms),
            );
            &&& lookup::<RegisteredClient>(clients, client_id) == Some(
                ClientView {
                    client_id,
                    client_secret,
                    client_name: req.client_name.deep_view(),
                    redirect_uris: req.redirect_uris.deep_view(),
                    registered_at_epoch_ms: now_epoch_ms,
                },
            )
            &&& has_key::<RegisteredClient>(clients, client_id)
            &&& 0 <= key_index::<RegisteredClient>(clients, client_id) < clients.len()
            &&& clients.map_values(client_info_at(st.tokens, now_ms))[key_index::<RegisteredClient>(
                clients,
                client_id,
            )] == (ClientInfoView {
                client_id,
                client_name: req.client_name.deep_view(),
                redirect_uris: req.redirect_uris.deep_view(),
                registered_at_epoch_ms: now_epoch_ms,
                active_tokens: st.tokens.filter(live_token_of(client_id, now_ms)).len(),
            })
        }),
{
    let c = registered_client(client_id, client_secret, req, now_epoch_ms);
    let clients = upsert::<RegisteredClient>(st.clients, c);
    lemma_lookup_upsert::<RegisteredClient>(st.clients, c, client_id);
    assert(has_key::<RegisteredClient>(clients, client_id));
    let i = key_index::<RegisteredClient>(clients, client_id);
    assert(0 <= i < clients.len() && clients[i].client_id == client_id);
    lemma_key_index_unique::<RegisteredClient>(clients, i);
    assert(clients[i] == c);
    law_client_listing(c, st.tokens, now_ms);
}

} // verus!
