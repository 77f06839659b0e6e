use vstd::prelude::*;
use crate::error::FnError;
use crate::fmt::{spec_dec, u64_to_dec};
use crate::hash_hs::{HandshakeHash, HashAlgorithm};
use crate::knowledge::{Claim, ClaimView};

verus! {

/// The claim kind recording the transcript up to the server hello.
pub const CLAIM_TRANSCRIPT_CH_SH: u64 = 1;

/// The claim kind recording the transcript up to the server finished.
pub const CLAIM_TRANSCRIPT_CH_SERVER_FIN: u64 = 2;

/// The claim kind recording the transcript up to the client finished.
pub const CLAIM_TRANSCRIPT_CH_CLIENT_FIN: u64 = 3;

/// The latest claim of the given kind.
pub open spec fn spec_find_last_claim(cs: Seq<ClaimView>, kind: u64) -> Option<ClaimView>
    decreases cs,
{
    if cs.len() == 0 {
        None
    } else if cs.last().kind == kind {
        Some(cs.last())
    } else {
        spec_find_last_claim(cs.drop_last(), kind)
    }
}

/// The views of a claim store.
pub open spec fn claim_store_views(cs: Seq<Claim>) -> Seq<ClaimView> {
    cs.map_values(|c: Claim| c@)
}

/// The display name of a claim kind; an unregistered kind shows its
/// number.
pub open spec fn spec_claim_kind_label(kind: u64) -> Seq<char> {
    if kind == CLAIM_TRANSCRIPT_CH_SH {
        "CLAIM_TRANSCRIPT_CH_SH"@
    } else if kind == CLAIM_TRANSCRIPT_CH_SERVER_FIN {
        "CLAIM_TRANSCRIPT_CH_SERVER_FIN"@
    } else if kind == CLAIM_TRANSCRIPT_CH_CLIENT_FIN {
        "CLAIM_TRANSCRIPT_CH_CLIENT_FIN"@
    } else {
        "claim kind "@ + spec_dec(kind as nat)
    }
}

/// The display name of a claim kind.
pub fn claim_kind_label(kind: u64) -> (r: String)
    ensures
        r@ == spec_claim_kind_label(kind),
{
    if kind == CLAIM_TRANSCRIPT_CH_SH {
        String::from_str("CLAIM_TRANSCRIPT_CH_SH")
    } else if kind == CLAIM_TRANSCRIPT_CH_SERVER_FIN {
        String::from_str("CLAIM_TRANSCRIPT_CH_SERVER_FIN")
    } else if kind == CLAIM_TRANSCRIPT_CH_CLIENT_FIN {
        String::from_str("CLAIM_TRANSCRIPT_CH_CLIENT_FIN")
    } else {
        let mut out = String::from_str("claim kind ");
        let d = u64_to_dec(kind);
        out.append(d.as_str());
        out
    }
}

/// The message reported when no claim carries the wanted transcript.
pub open spec fn spec_missing_transcript_msg(kind: u64) -> Seq<char> {
    "Failed to find "@ + spec_claim_kind_label(kind) + " transcript"@
}

/// The latest claim of the given kind in the store.
pub fn find_last_claim(claims: &Vec<Claim>, kind: u64) -> (r: Option<&Claim>)
    ensures
        match r {
            Some(c) => spec_find_last_claim(claim_store_views(claims@), kind) == Some(c@),
            None => spec_find_last_claim(claim_store_views(claims@), kind) is None,
        },
{
    proof {
        assert(claim_store_views(claims@).len() == claims@.len());
        assert(forall|j: int|
            0 <= j < claims@.len() ==> #[trigger] claim_store_views(claims@)[j] == claims@[j]@);
    }
    let ghost full = claim_store_views(claims@);
    let mut i: usize = claims.len();
    proof {
        assert(full.take(claims@.len() as int) =~= full);
    }
    while i > 0
        invariant
            i <= claims@.len(),
            full == claim_store_views(claims@),
            full.len() == claims@.len(),
            forall|j: int| 0 <= j < full.len() ==> #[trigger] full[j] == claims@[j]@,
            spec_find_last_claim(full, kind) == spec_find_last_claim(full.take(i as int), kind),
        decreases i,
    {
        proof {
            assert(full.take(i as int).last() == full[i - 1 as int]);
            assert(full.take(i as int).drop_last() =~= full.take(i - 1 as int));
        }
        if claims[i - 1].kind == kind {
            return Some(&claims[i - 1]);
        }
        i = i - 1;
    }
    proof {
        assert(full.take(0) =~= Seq::<ClaimView>::empty());
    }
    None
}

/// Turns a recorded transcript claim into a fixed handshake hash; a
/// missing claim fails with the kind it looked for.
pub fn into_transcript(claim: Option<&Claim>, kind: u64) -> (r: Result<HandshakeHash, FnError>)
    ensures
        match r {
            Ok(h) => {
                &&& claim matches Some(c)
                &&& h.alg == HashAlgorithm::Sha256
                &&& h.override_buffer matches Some(b) && b@ == c@.data.bytes
            },
            Err(e) => claim is None && (e matches FnError::Unknown(m) && m@
                == spec_missing_transcript_msg(kind)),
        },
{
    match claim {
        Some(c) => {
            let transcript = vstd::slice::slice_to_vec(c.data.bytes.as_slice());
            Ok(HandshakeHash::new_override(transcript, &HashAlgorithm::Sha256))
        },
        None => {
            let mut m = String::from_str("Failed to find ");
            let label = claim_kind_label(kind);
            m.append(label.as_str());
            m.append(" transcript");
            Err(FnError::Unknown(m))
        },
    }
}

/// The transcript the latest claim of the given kind recorded.
fn find_transcript(claims: &Vec<Claim>, kind: u64) -> (r: Result<HandshakeHash, FnError>)
    ensures
        transcript_result_ok(claims@, kind, r),
{
    let claim = find_last_claim(claims, kind);
    into_transcript(claim, kind)
}

/// A found transcript claim yields a fixed hash holding its bytes; a
/// missing one fails with the kind it looked for.
pub open spec fn transcript_result_ok(
    claims: Seq<Claim>,
    kind: u64,
    r: Result<HandshakeHash, FnError>,
) -> bool {
    match spec_find_last_claim(claim_store_views(claims), kind) {
        Some(cv) => r matches Ok(h) && h.alg == HashAlgorithm::Sha256 && (
        h.override_buffer matches Some(b) && b@ == cv.data.bytes),
        None => r matches Err(FnError::Unknown(m)) && m@ == spec_missing_transcript_msg(kind),
    }
}

/// The transcript up to the server hello, from the latest such claim.
pub fn fn_server_hello_transcript(claims: &Vec<Claim>) -> (r: Result<HandshakeHash, FnError>)
    ensures
        transcript_result_ok(claims@, CLAIM_TRANSCRIPT_CH_SH, r),
{
    find_transcript(claims, CLAIM_TRANSCRIPT_CH_SH)
}

/// The transcript up to the server finished, from the latest such
/// claim.
pub fn fn_server_finished_transcript(claims: &Vec<Claim>) -> (r: Result<HandshakeHash, FnError>)
    ensures
        transcript_result_ok(claims@, CLAIM_TRANSCRIPT_CH_SERVER_FIN, r),
{
    find_transcript(claims, CLAIM_TRANSCRIPT_CH_SERVER_FIN)
}

/// The transcript up to the client finished, from the latest such
/// claim.
pub fn fn_client_finished_transcript(claims: &Vec<Claim>) -> (r: Result<HandshakeHash, FnError>)
    ensures
        transcript_result_ok(claims@, CLAIM_TRANSCRIPT_CH_CLIENT_FIN, r),
{
    find_transcript(claims, CLAIM_TRANSCRIPT_CH_CLIENT_FIN)
}

} // verus!
