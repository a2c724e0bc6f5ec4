//! Pairing front end: dispatches the five-step handshake requests by
//! their query parameters, decodes their hexadecimal values, drives the
//! client registry, and renders the XML replies.
//!
//! Every reply is an XML root element. Handshake failures answer with
//! status 200 and `<paired>0</paired>` — a quirk of the protocol —
//! while a request whose parameters cannot be parsed is answered with
//! status 400. Each step's full behaviour is a named postcondition
//! (`..._post`), stated once and carried through the dispatcher.

use vstd::prelude::*;

use crate::crypto::{
    aes_ecb_decrypt_of, aes_ecb_encrypt_of, sha256_of, x509_pem_ok, x509_pem_ok_of,
    OPENSSL_MAX_INPUT,
};
use crate::hexcode::{hex_decode, hex_decode_spec, hex_encode, hex_of};
use crate::registry::{
    add_client_rel, derived_key, has_pending_id, pending_index_of, ClientRegistry, PairError,
    PendingClient,
};

verus! {

/// A reply to a pairing request: HTTP status and XML body.
pub struct PairReply {
    pub status: u16,
    pub body: String,
}

/// What a pairing request results in.
pub enum PairOutcome {
    /// Answer at once.
    Reply(PairReply),
    /// A handshake was registered; the caller must wait until the
    /// operator posts the PIN, then answer with `server_cert_reply`.
    PinPending,
}

/// The XML of a successful step: paired, with step-specific content.
pub open spec fn paired_body(extra: Seq<char>) -> Seq<char> {
    "<root status_code=\"200\"><paired>1</paired>"@ + extra + "</root>"@
}

/// The XML of a failed step: not paired.
pub open spec fn unpaired_body() -> Seq<char> {
    "<root status_code=\"200\"><paired>0</paired></root>"@
}

/// The paired and unpaired bodies can never be confused: they differ
/// at the paired digit.
proof fn lemma_bodies_differ(extra: Seq<char>)
    ensures
        paired_body(extra) != unpaired_body(),
{
    reveal_strlit("<root status_code=\"200\"><paired>1</paired>");
    reveal_strlit("<root status_code=\"200\"><paired>0</paired></root>");
    assert(paired_body(extra)[32] == '1');
    assert(unpaired_body()[32] == '0');
}

/// The value of the first parameter named `key`.
pub open spec fn lookup_param(ps: Seq<(String, String)>, key: Seq<char>) -> Option<Seq<char>>
    decreases ps.len(),
{
    if ps.len() == 0 {
        None
    } else if ps[0].0@ == key {
        Some(ps[0].1@)
    } else {
        lookup_param(ps.drop_first(), key)
    }
}

/// Fetch the first parameter named `key`.
fn get_param(params: &Vec<(String, String)>, key: &String) -> (r: Option<String>)
    ensures
        match r {
            Some(v) => lookup_param(params@, key@) == Some(v@),
            None => lookup_param(params@, key@) is None,
        },
{
    let mut i: usize = 0;
    proof {
        assert(params@.skip(0) =~= params@);
    }
    while i < params.len()
        invariant
            i <= params@.len(),
            lookup_param(params@, key@) == lookup_param(params@.skip(i as int), key@),
        decreases params@.len() - i,
    {
        proof {
            assert(params@.skip(i as int).drop_first() =~= params@.skip(i + 1));
            assert(params@.skip(i as int)[0] == params@[i as int]);
        }
        if params[i].0 == *key {
            return Some(params[i].1.clone());
        }
        i += 1;
    }
    None
}

/// `<root status_code="200"><paired>1</paired>` … `</root>`.
fn render_paired(extra: &str) -> (r: String)
    ensures
        r@ == paired_body(extra@),
{
    let mut body = String::from_str("<root status_code=\"200\"><paired>1</paired>");
    body.append(extra);
    body.append("</root>");
    body
}

/// `<paired>0</paired>`: the step failed, the handshake is over.
fn render_unpaired() -> (r: String)
    ensures
        r@ == unpaired_body(),
{
    String::from_str("<root status_code=\"200\"><paired>0</paired></root>")
}

fn reply(status: u16, body: String) -> (r: PairReply)
    ensures
        r.status == status,
        r.body == body,
{
    PairReply { status, body }
}

/// The reply sent once the PIN has arrived for a `getservercert`
/// request: the server certificate in hexadecimal.
pub fn server_cert_reply(server_pem: &Vec<u8>) -> (r: PairReply)
    ensures
        r.status == 200,
        r.body@ == paired_body(
            "<plaincert>"@ + hex_of(server_pem@) + "</plaincert>"@,
        ),
{
    let mut extra = String::from_str("<plaincert>");
    let encoded = hex_encode(server_pem);
    extra.append(encoded.as_str());
    extra.append("</plaincert>");
    let body = render_paired(extra.as_str());
    PairReply { status: 200, body }
}

/// An id the registry accepts: no character is the quote (scalar 34),
/// so the persisted state file reparses to the same id.
pub open spec fn id_quote_free(id: Seq<char>) -> bool {
    forall|i: int| 0 <= i < id.len() ==> (#[trigger] id[i]) as u32 != 34
}

/// Relies on `str::contains`: whether the quote character occurs in
/// the text.
#[verifier::external_body]
fn check_quote_free(id: &String) -> (r: bool)
    ensures
        r == id_quote_free(id@),
{
    !id.contains('"')
}

/// What the first step does: a handshake is registered exactly when
/// the certificate and salt decode and validate, the id carries no
/// quote, and no handshake for this unique id is under way; every
/// other input answers 400 and leaves the registry alone.
pub open spec fn get_server_cert_post(
    pre: ClientRegistry,
    post: ClientRegistry,
    params: Seq<(String, String)>,
    r: PairOutcome,
) -> bool {
    let cert = lookup_param(params, "clientcert"@);
    let uid = lookup_param(params, "uniqueid"@);
    let salt = lookup_param(params, "salt"@);
    let valid = cert is Some && uid is Some && salt is Some && hex_decode_spec(
        cert->Some_0,
    ) is Some && hex_decode_spec(cert->Some_0)->Some_0.len() <= OPENSSL_MAX_INPUT
        && hex_decode_spec(salt->Some_0) is Some && hex_decode_spec(
        salt->Some_0,
    )->Some_0.len() == 16 && x509_pem_ok_of(hex_decode_spec(cert->Some_0)->Some_0)
        && id_quote_free(uid->Some_0);
    &&& post.clients@ == pre.clients@
    &&& (r is PinPending <==> valid && !has_pending_id(pre.pending@, uid->Some_0))
    &&& (r is PinPending ==> post.pending@.len() == pre.pending@.len() + 1 && {
        let p = post.pending@.last();
        &&& p.unique_id@ == uid->Some_0
        &&& p.certificate@ == hex_decode_spec(cert->Some_0)->Some_0
        &&& p.salt@ == hex_decode_spec(salt->Some_0)->Some_0
        &&& p.key is None
    })
    &&& (r matches PairOutcome::Reply(rep) ==> rep.status == 400 && post.pending@
        == pre.pending@)
}

/// First step, `phrase=getservercert`: validate the client certificate
/// and salt, and register the handshake. The reply waits for the PIN.
/// Ids holding a quote are rejected so that the persisted state file
/// round-trips.
pub fn get_server_cert(registry: &mut ClientRegistry, params: &Vec<(String, String)>) -> (r:
    PairOutcome)
    requires
        old(registry).wf(),
    ensures
        final(registry).wf(),
        get_server_cert_post(*old(registry), *final(registry), params@, r),
{
    let cert_hex = match get_param(params, &String::from_str("clientcert")) {
        Some(c) => c,
        None => {
            return PairOutcome::Reply(
                reply(400, String::from_str("Expected 'clientcert' in get server cert request.")),
            );
        },
    };
    let certificate = match hex_decode(cert_hex.as_str()) {
        Some(c) => c,
        None => {
            return PairOutcome::Reply(
                reply(400, String::from_str("Invalid hexadecimal client certificate.")),
            );
        },
    };
    let unique_id = match get_param(params, &String::from_str("uniqueid")) {
        Some(u) => u,
        None => {
            return PairOutcome::Reply(
                reply(400, String::from_str("Expected 'uniqueid' in get server cert request.")),
            );
        },
    };
    let salt_hex = match get_param(params, &String::from_str("salt")) {
        Some(s) => s,
        None => {
            return PairOutcome::Reply(
                reply(400, String::from_str("Expected 'salt' in get server cert request.")),
            );
        },
    };
    let salt = match hex_decode(salt_hex.as_str()) {
        Some(s) => s,
        None => {
            return PairOutcome::Reply(
                reply(400, String::from_str("Invalid hexadecimal salt value.")),
            );
        },
    };
    if salt.len() != 16 {
        return PairOutcome::Reply(
            reply(400, String::from_str("Expected exactly 16 bytes of salt.")),
        );
    }
    if certificate.len() > OPENSSL_MAX_INPUT {
        return PairOutcome::Reply(
            reply(400, String::from_str("Client certificate is too large.")),
        );
    }
    if !x509_pem_ok(&certificate) {
        return PairOutcome::Reply(reply(400, String::from_str("Invalid client certificate.")));
    }
    if !check_quote_free(&unique_id) {
        return PairOutcome::Reply(
            reply(400, String::from_str("Quotes are not accepted in a unique id.")),
        );
    }
    let pending = PendingClient {
        unique_id,
        certificate,
        salt,
        key: None,
        server_secret: None,
        server_challenge: None,
        client_hash: None,
        pin: Ghost(None),
    };
    match registry.start_pairing(pending) {
        Ok(()) => PairOutcome::PinPending,
        Err(_) => PairOutcome::Reply(
            reply(400, String::from_str("Failed to start pairing client.")),
        ),
    }
}

/// The bytes a successful second step answers with: the first sixteen
/// bytes of the encrypted hash of certificate signature, decrypted
/// challenge and the fresh server secret now stored in the handshake.
pub open spec fn challenge_response_of(
    pre: ClientRegistry,
    post: ClientRegistry,
    uid: Seq<char>,
    challenge: Seq<u8>,
    cert_sig: Seq<u8>,
) -> Seq<u8> {
    let idx = pending_index_of(pre.pending@, uid);
    let key = pre.pending@[idx].key->Some_0@;
    let secret = post.pending@[idx].server_secret->Some_0@;
    aes_ecb_encrypt_of(
        key,
        sha256_of(cert_sig + aes_ecb_decrypt_of(key, challenge) + secret),
    ).subrange(0, 16)
}

/// What the second step does. For a decodable challenge: the paired
/// reply carries exactly the encrypted challenge hash and is given
/// only to a known, keyed handshake with a 16-byte challenge, whose
/// entry then holds the fresh secret and challenge; the unpaired
/// reply means the handshake never existed or was dropped; and a
/// handshake in good standing is answered paired unless drawing the
/// fresh random material failed, which drops it.
pub open spec fn client_challenge_post(
    pre: ClientRegistry,
    post: ClientRegistry,
    params: Seq<(String, String)>,
    cert_sig: Seq<u8>,
    r: PairReply,
) -> bool {
    let uid = lookup_param(params, "uniqueid"@);
    let ch = lookup_param(params, "clientchallenge"@);
    let known = uid is Some && has_pending_id(pre.pending@, uid->Some_0);
    let idx = pending_index_of(pre.pending@, uid->Some_0);
    let p = pre.pending@[idx];
    &&& post.clients@ == pre.clients@
    &&& (uid is None || ch is None ==> r.status == 400 && post.pending@ == pre.pending@)
    &&& (uid is Some && ch is Some && hex_decode_spec(ch->Some_0) is None ==> r.status == 400
        && post.pending@ == (if known {
        pre.pending@.remove(idx)
    } else {
        pre.pending@
    }))
    &&& (uid is Some && ch is Some && hex_decode_spec(ch->Some_0) is Some ==> {
        let c = hex_decode_spec(ch->Some_0)->Some_0;
        &&& r.status == 200
        &&& (r.body@ == unpaired_body() || r.body@ == paired_body(
            "<challengeresponse>"@ + hex_of(
                challenge_response_of(pre, post, uid->Some_0, c, cert_sig),
            ) + "</challengeresponse>"@,
        ))
        &&& (r.body@ != unpaired_body() ==> {
            &&& known
            &&& p.key is Some
            &&& c.len() == 16
            &&& post.pending@.len() == pre.pending@.len()
            &&& post.pending@[idx].key == p.key
            &&& post.pending@[idx].server_secret is Some
            &&& post.pending@[idx].server_challenge is Some
        })
        &&& (r.body@ == unpaired_body() ==> ((!known && post.pending@ == pre.pending@)
            || post.pending@ == pre.pending@.remove(idx)))
        &&& (known && p.key is Some && c.len() == 16 ==> (r.body@ != unpaired_body()
            || post.pending@ == pre.pending@.remove(idx)))
    })
}

/// Second step, `clientchallenge`: decrypt, answer with the encrypted
/// challenge hash. A parameter failure answers 400; a handshake
/// failure answers `<paired>0</paired>` and drops the handshake.
pub fn client_challenge(
    registry: &mut ClientRegistry,
    params: &Vec<(String, String)>,
    server_cert_signature: &Vec<u8>,
) -> (r: PairReply)
    requires
        old(registry).wf(),
    ensures
        final(registry).wf(),
        client_challenge_post(
            *old(registry),
            *final(registry),
            params@,
            server_cert_signature@,
            r,
        ),
{
    let unique_id = match get_param(params, &String::from_str("uniqueid")) {
        Some(u) => u,
        None => {
            return reply(400, String::from_str("Expected 'uniqueid' in client challenge."));
        },
    };
    let challenge_hex = match get_param(params, &String::from_str("clientchallenge")) {
        Some(c) => c,
        None => {
            return reply(400, String::from_str("Expected 'clientchallenge' in client challenge."));
        },
    };
    let challenge = match hex_decode(challenge_hex.as_str()) {
        Some(c) => c,
        None => {
            registry.drop_pending(&unique_id);
            return reply(400, String::from_str("Invalid hexadecimal client challenge."));
        },
    };
    match registry.client_challenge(&unique_id, &challenge, server_cert_signature) {
        Ok(response) => {
            let mut extra = String::from_str("<challengeresponse>");
            let encoded = hex_encode(&response);
            extra.append(encoded.as_str());
            extra.append("</challengeresponse>");
            proof {
                lemma_bodies_differ(extra@);
            }
            reply(200, render_paired(extra.as_str()))
        },
        Err(_) => reply(200, render_unpaired()),
    }
}

/// The bytes a successful third step answers with: the server secret,
/// encrypted with the shared key.
pub open spec fn pairing_secret_of(pre: ClientRegistry, uid: Seq<char>) -> Seq<u8> {
    let idx = pending_index_of(pre.pending@, uid);
    let key = pre.pending@[idx].key->Some_0@;
    let secret = pre.pending@[idx].server_secret->Some_0@;
    aes_ecb_encrypt_of(key, secret)
}

/// What the third step does. For a decodable response: the paired
/// reply carries exactly the encrypted server secret and is given
/// exactly to a known handshake with key and secret and a 32-byte
/// response, whose entry then commits the client hash (the second
/// half of the decrypted response); the unpaired reply means the
/// handshake never existed or was dropped.
pub open spec fn server_challenge_response_post(
    pre: ClientRegistry,
    post: ClientRegistry,
    params: Seq<(String, String)>,
    r: PairReply,
) -> bool {
    let uid = lookup_param(params, "uniqueid"@);
    let sr = lookup_param(params, "serverchallengeresp"@);
    let known = uid is Some && has_pending_id(pre.pending@, uid->Some_0);
    let idx = pending_index_of(pre.pending@, uid->Some_0);
    let p = pre.pending@[idx];
    &&& post.clients@ == pre.clients@
    &&& (uid is None || sr is None ==> r.status == 400 && post.pending@ == pre.pending@)
    &&& (uid is Some && sr is Some && hex_decode_spec(sr->Some_0) is None ==> r.status == 400
        && post.pending@ == (if known {
        pre.pending@.remove(idx)
    } else {
        pre.pending@
    }))
    &&& (uid is Some && sr is Some && hex_decode_spec(sr->Some_0) is Some ==> {
        let d = hex_decode_spec(sr->Some_0)->Some_0;
        &&& r.status == 200
        &&& (r.body@ == unpaired_body() || r.body@ == paired_body(
            "<pairingsecret>"@ + hex_of(pairing_secret_of(pre, uid->Some_0))
                + "</pairingsecret>"@,
        ))
        &&& (r.body@ != unpaired_body() ==> {
            &&& known
            &&& p.key is Some
            &&& p.server_secret is Some
            &&& d.len() == 32
            &&& post.pending@.len() == pre.pending@.len()
            &&& post.pending@[idx].key == p.key
            &&& post.pending@[idx].server_secret == p.server_secret
            &&& (post.pending@[idx].client_hash matches Some(h) && h@ == aes_ecb_decrypt_of(
                p.key->Some_0@,
                d,
            ).subrange(16, 32))
        })
        &&& (r.body@ == unpaired_body() ==> ((!known && post.pending@ == pre.pending@)
            || post.pending@ == pre.pending@.remove(idx)))
        &&& (known && p.key is Some && p.server_secret is Some && d.len() == 32
            ==> r.body@ != unpaired_body())
    })
}

/// Third step, `serverchallengeresp`: store the client's hash and
/// answer with the encrypted server secret.
pub fn server_challenge_response(registry: &mut ClientRegistry, params: &Vec<(String, String)>) -> (
    r: PairReply)
    requires
        old(registry).wf(),
    ensures
        final(registry).wf(),
        server_challenge_response_post(*old(registry), *final(registry), params@, r),
{
    let server_response_hex = match get_param(params, &String::from_str("serverchallengeresp")) {
        Some(s) => s,
        None => {
            return reply(
                400,
                String::from_str("Expected 'serverchallengeresp' in server challenge response."),
            );
        },
    };
    let unique_id = match get_param(params, &String::from_str("uniqueid")) {
        Some(u) => u,
        None => {
            return reply(
                400,
                String::from_str("Expected 'uniqueid' in server challenge response."),
            );
        },
    };
    let data = match hex_decode(server_response_hex.as_str()) {
        Some(d) => d,
        None => {
            registry.drop_pending(&unique_id);
            return reply(400, String::from_str("Invalid hexadecimal challenge response."));
        },
    };
    match registry.server_challenge_response(&unique_id, &data) {
        Ok(secret) => {
            let mut extra = String::from_str("<pairingsecret>");
            let encoded = hex_encode(&secret);
            extra.append(encoded.as_str());
            extra.append("</pairingsecret>");
            proof {
                lemma_bodies_differ(extra@);
            }
            reply(200, render_paired(extra.as_str()))
        },
        Err(_) => reply(200, render_unpaired()),
    }
}

/// What the fourth step does: without a unique id, 400 and no change;
/// with one, the paired reply and exactly the promotion transition —
/// a promoted client, replacement of an older one, or a tolerated
/// error that leaves the tables consistent.
pub open spec fn pair_challenge_post(
    pre: ClientRegistry,
    post: ClientRegistry,
    params: Seq<(String, String)>,
    r: PairReply,
) -> bool {
    let uid = lookup_param(params, "uniqueid"@);
    &&& (uid is None ==> r.status == 400 && post.pending@ == pre.pending@ && post.clients@
        == pre.clients@)
    &&& (uid is Some ==> r.status == 200 && r.body@ == paired_body(""@) && (
    exists|res: Result<(), PairError>| add_client_rel(pre, post, uid->Some_0, res)))
}

/// Fourth step, `phrase=pairchallenge`: promote the handshake to a
/// paired client. Promotion failures are tolerated, since every client
/// of one vendor shares a single unique id.
pub fn pair_challenge(registry: &mut ClientRegistry, params: &Vec<(String, String)>) -> (r:
    PairReply)
    requires
        old(registry).wf(),
    ensures
        final(registry).wf(),
        pair_challenge_post(*old(registry), *final(registry), params@, r),
{
    let unique_id = match get_param(params, &String::from_str("uniqueid")) {
        Some(u) => u,
        None => {
            return reply(400, String::from_str("Expected 'uniqueid' in pair challenge."));
        },
    };
    let res = registry.add_client(&unique_id);
    let out = reply(200, render_paired(""));
    proof {
        assert(unique_id@ == lookup_param(params@, "uniqueid"@)->Some_0);
        assert(add_client_rel(
            *old(registry),
            *registry,
            lookup_param(params@, "uniqueid"@)->Some_0,
            res,
        ));
    }
    out
}

/// What the fifth step does. For a decodable secret: the paired reply
/// is given exactly when a known handshake holds key, challenge and
/// committed hash, the secret is block-aligned and within bounds, and
/// the first half of `SHA-256(server_challenge || decrypted secret)`
/// equals the committed hash — the handshake is then kept; every
/// other decodable secret is answered unpaired, and the handshake is
/// gone or never existed.
pub open spec fn client_pairing_secret_post(
    pre: ClientRegistry,
    post: ClientRegistry,
    params: Seq<(String, String)>,
    r: PairReply,
) -> bool {
    let uid = lookup_param(params, "uniqueid"@);
    let cs = lookup_param(params, "clientpairingsecret"@);
    let known = uid is Some && has_pending_id(pre.pending@, uid->Some_0);
    let idx = pending_index_of(pre.pending@, uid->Some_0);
    let p = pre.pending@[idx];
    &&& post.clients@ == pre.clients@
    &&& (uid is None || cs is None ==> r.status == 400 && post.pending@ == pre.pending@)
    &&& (uid is Some && cs is Some && hex_decode_spec(cs->Some_0) is None ==> r.status == 400
        && post.pending@ == (if known {
        pre.pending@.remove(idx)
    } else {
        pre.pending@
    }))
    &&& (uid is Some && cs is Some && hex_decode_spec(cs->Some_0) is Some ==> {
        let s = hex_decode_spec(cs->Some_0)->Some_0;
        let good = known && p.key is Some && p.server_challenge is Some && p.client_hash is Some
            && s.len() % 16 == 0 && s.len() <= OPENSSL_MAX_INPUT;
        let matching = sha256_of(
            p.server_challenge->Some_0@ + aes_ecb_decrypt_of(p.key->Some_0@, s),
        ).subrange(0, 16) == p.client_hash->Some_0@;
        &&& r.status == 200
        &&& (r.body@ == unpaired_body() || r.body@ == paired_body(""@))
        &&& (r.body@ == paired_body(""@) <==> good && matching)
        &&& (r.body@ == paired_body(""@) ==> post.pending@ == pre.pending@)
        &&& (r.body@ == unpaired_body() ==> ((!known && post.pending@ == pre.pending@)
            || post.pending@ == pre.pending@.remove(idx)))
    })
}

/// Fifth step, `clientpairingsecret`: check the client's secret
/// against its committed hash.
pub fn client_pairing_secret(registry: &mut ClientRegistry, params: &Vec<(String, String)>) -> (r:
    PairReply)
    requires
        old(registry).wf(),
    ensures
        final(registry).wf(),
        client_pairing_secret_post(*old(registry), *final(registry), params@, r),
{
    let secret_hex = match get_param(params, &String::from_str("clientpairingsecret")) {
        Some(s) => s,
        None => {
            return reply(
                400,
                String::from_str("Expected 'clientpairingsecret' in client pairing secret."),
            );
        },
    };
    let unique_id = match get_param(params, &String::from_str("uniqueid")) {
        Some(u) => u,
        None => {
            return reply(400, String::from_str("Expected 'uniqueid' in client pairing secret."));
        },
    };
    let secret = match hex_decode(secret_hex.as_str()) {
        Some(s) => s,
        None => {
            registry.drop_pending(&unique_id);
            return reply(400, String::from_str("Invalid hexadecimal pairing secret."));
        },
    };
    proof {
        lemma_bodies_differ(""@);
    }
    match registry.check_client_pairing_secret(&unique_id, &secret) {
        Ok(()) => reply(200, render_paired("")),
        Err(_) => reply(200, render_unpaired()),
    }
}

/// The parameters rendered as text: `key=value; ` for each, in order.
pub open spec fn params_text(ps: Seq<(String, String)>) -> Seq<char>
    decreases ps.len(),
{
    if ps.len() == 0 {
        Seq::empty()
    } else {
        ps[0].0@ + "="@ + ps[0].1@ + "; "@ + params_text(ps.drop_first())
    }
}

/// Render the parameters for the unknown-command reply.
fn render_params(params: &Vec<(String, String)>) -> (r: String)
    ensures
        r@ == params_text(params@),
{
    let mut out = String::new();
    let mut i: usize = 0;
    while i < params.len()
        invariant
            i <= params@.len(),
            out@ == params_text(params@.subrange(0, i as int)),
        decreases params@.len() - i,
    {
        out.append(params[i].0.as_str());
        out.append("=");
        out.append(params[i].1.as_str());
        out.append("; ");
        proof {
            lemma_params_text_snoc(params@, i as int);
        }
        i += 1;
    }
    proof {
        assert(params@.subrange(0, params@.len() as int) =~= params@);
    }
    out
}

/// Rendering one more parameter appends its text.
proof fn lemma_params_text_snoc(ps: Seq<(String, String)>, i: int)
    requires
        0 <= i < ps.len(),
    ensures
        params_text(ps.subrange(0, i + 1)) == params_text(ps.subrange(0, i)) + ps[i].0@ + "="@
            + ps[i].1@ + "; "@,
    decreases i,
{
    if i == 0 {
        assert(ps.subrange(0, 1).drop_first() =~= Seq::<(String, String)>::empty());
        assert(ps.subrange(0, 0) =~= Seq::<(String, String)>::empty());
        assert(params_text(ps.subrange(0, 1)) == ps[0].0@ + "="@ + ps[0].1@ + "; "@
            + Seq::<char>::empty());
        assert(params_text(ps.subrange(0, 1)) =~= params_text(ps.subrange(0, 0)) + ps[0].0@ + "="@
            + ps[0].1@ + "; "@);
    } else {
        lemma_params_text_snoc(ps.drop_first(), i - 1);
        assert(ps.subrange(0, i + 1).drop_first() =~= ps.drop_first().subrange(0, i));
        assert(ps.subrange(0, i).drop_first() =~= ps.drop_first().subrange(0, i - 1));
        assert(params_text(ps.subrange(0, i + 1)) =~= params_text(ps.subrange(0, i)) + ps[i].0@
            + "="@ + ps[i].1@ + "; "@);
    }
}

/// Dispatch a pairing request by its parameters: exactly one handshake
/// step, chosen by the `phrase` value or the step parameter present,
/// with that step's full postcondition; or status 400 naming the
/// unknown phrase or command.
pub fn handle_pair_request(
    registry: &mut ClientRegistry,
    params: &Vec<(String, String)>,
    server_cert_signature: &Vec<u8>,
) -> (r: PairOutcome)
    requires
        old(registry).wf(),
    ensures
        final(registry).wf(),
        ({
            let phrase = lookup_param(params@, "phrase"@);
            &&& (phrase == Some("getservercert"@) ==> get_server_cert_post(
                *old(registry),
                *final(registry),
                params@,
                r,
            ))
            &&& (phrase == Some("pairchallenge"@) ==> (r matches PairOutcome::Reply(rep)
                && pair_challenge_post(*old(registry), *final(registry), params@, rep)))
            &&& (phrase is Some && phrase->Some_0 != "getservercert"@ && phrase->Some_0
                != "pairchallenge"@ ==> (r matches PairOutcome::Reply(rep) && rep.status == 400
                && rep.body@ == "Unknown pair phrase received: "@ + phrase->Some_0 && *final(registry) == *old(registry)))
            &&& (phrase is None ==> {
                let cc = lookup_param(params@, "clientchallenge"@);
                let sr = lookup_param(params@, "serverchallengeresp"@);
                let cs = lookup_param(params@, "clientpairingsecret"@);
                &&& (cc is Some ==> (r matches PairOutcome::Reply(rep) && client_challenge_post(
                    *old(registry),
                    *final(registry),
                    params@,
                    server_cert_signature@,
                    rep,
                )))
                &&& (cc is None && sr is Some ==> (r matches PairOutcome::Reply(rep)
                    && server_challenge_response_post(
                    *old(registry),
                    *final(registry),
                    params@,
                    rep,
                )))
                &&& (cc is None && sr is None && cs is Some ==> (r matches PairOutcome::Reply(rep)
                    && client_pairing_secret_post(
                    *old(registry),
                    *final(registry),
                    params@,
                    rep,
                )))
                &&& (cc is None && sr is None && cs is None ==> (r matches PairOutcome::Reply(rep)
                    && rep.status == 400 && rep.body@ == "Unknown pair command with params: "@
                    + params_text(params@) && *final(registry) == *old(registry)))
            })
        }),
{
    proof {
        reveal_strlit("getservercert");
        reveal_strlit("pairchallenge");
        assert("getservercert"@[0] == 'g');
        assert("pairchallenge"@[0] == 'p');
        assert("getservercert"@ != "pairchallenge"@);
    }
    let phrase = get_param(params, &String::from_str("phrase"));
    match phrase {
        Some(p) => {
            if p == String::from_str("getservercert") {
                get_server_cert(registry, params)
            } else if p == String::from_str("pairchallenge") {
                PairOutcome::Reply(pair_challenge(registry, params))
            } else {
                let mut message = String::from_str("Unknown pair phrase received: ");
                message.append(p.as_str());
                PairOutcome::Reply(reply(400, message))
            }
        },
        None => {
            if get_param(params, &String::from_str("clientchallenge")).is_some() {
                PairOutcome::Reply(client_challenge(registry, params, server_cert_signature))
            } else if get_param(params, &String::from_str("serverchallengeresp")).is_some() {
                PairOutcome::Reply(server_challenge_response(registry, params))
            } else if get_param(params, &String::from_str("clientpairingsecret")).is_some() {
                PairOutcome::Reply(client_pairing_secret(registry, params))
            } else {
                let mut message = String::from_str("Unknown pair command with params: ");
                let rendered = render_params(params);
                message.append(rendered.as_str());
                PairOutcome::Reply(reply(400, message))
            }
        },
    }
}

/// What the PIN route does: with both parameters and a pending
/// handshake for the id, status 200 and exactly the key derivation —
/// the entry's key becomes the first half of `SHA-256(salt || pin)`,
/// everything else untouched; otherwise status 400 and no change.
pub open spec fn pin_post(
    pre: ClientRegistry,
    post: ClientRegistry,
    params: Seq<(String, String)>,
    r: PairReply,
) -> bool {
    let uid = lookup_param(params, "uniqueid"@);
    let pin = lookup_param(params, "pin"@);
    let idx = pending_index_of(pre.pending@, uid->Some_0);
    let p = pre.pending@[idx];
    &&& post.clients@ == pre.clients@
    &&& (uid is None || pin is None ==> r.status == 400 && post.pending@ == pre.pending@)
    &&& (uid is Some && pin is Some && !has_pending_id(pre.pending@, uid->Some_0) ==> r.status
        == 400 && post.pending@ == pre.pending@)
    &&& (uid is Some && pin is Some && has_pending_id(pre.pending@, uid->Some_0) ==> {
        &&& r.status == 200
        &&& post.pending@.len() == pre.pending@.len()
        &&& (forall|j: int|
            0 <= j < post.pending@.len() && j != idx ==> post.pending@[j] == pre.pending@[j])
        &&& post.pending@[idx].unique_id@ == p.unique_id@
        &&& post.pending@[idx].certificate@ == p.certificate@
        &&& post.pending@[idx].salt@ == p.salt@
        &&& post.pending@[idx].server_secret == p.server_secret
        &&& post.pending@[idx].server_challenge == p.server_challenge
        &&& post.pending@[idx].client_hash == p.client_hash
        &&& (post.pending@[idx].key matches Some(k) && k@ == derived_key(
            p.salt@,
            vstd::utf8::encode_utf8(pin->Some_0),
        ))
    })
}

/// The operator has posted the PIN: derive and store the shared key,
/// so the waiting `getservercert` request can answer.
pub fn handle_pin_request(registry: &mut ClientRegistry, params: &Vec<(String, String)>) -> (r:
    PairReply)
    requires
        old(registry).wf(),
    ensures
        final(registry).wf(),
        pin_post(*old(registry), *final(registry), params@, r),
{
    let unique_id = match get_param(params, &String::from_str("uniqueid")) {
        Some(u) => u,
        None => {
            return reply(400, String::from_str("Expected 'uniqueid' in pin request."));
        },
    };
    let pin = match get_param(params, &String::from_str("pin")) {
        Some(p) => p,
        None => {
            return reply(400, String::from_str("Expected 'pin' in pin request."));
        },
    };
    match registry.provide_pin(&unique_id, pin.as_str()) {
        Ok(()) => reply(200, String::from_str("<root status_code=\"200\"/>")),
        Err(_) => reply(400, String::from_str("No pairing in progress for this unique id.")),
    }
}

} // verus!
