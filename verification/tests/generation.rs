use puffin::atoms::AgentName;
use puffin::host::HostFn;
use puffin::signature::{current_signature, set_current_signature, Signature, SignatureAnchor};
use puffin::once::OnceSlot;
use puffin::term::Term;
use puffin::types::HostType;
use puffin::zoo::{TermZoo, ZooRand};

fn chain_signature() -> Signature {
    let mut sig = Signature::new();
    sig.new_function(HostFn::Finished);
    sig.new_function(HostFn::Seq0);
    sig.new_function(HostFn::Encrypt12);
    sig
}

#[test]
fn zoo_covers_every_root_symbol() {
    let sig = chain_signature();
    let mut rand = ZooRand::new(7);
    let zoo = TermZoo::generate(&sig, &mut rand);
    let terms = zoo.terms();
    assert_eq!(terms.len(), 3);
    for (i, t) in terms.iter().enumerate() {
        assert_eq!(t.resistant_id(), i as u32);
    }
}

#[test]
fn zoo_generation_is_deterministic() {
    let sig = chain_signature();
    let mut r1 = ZooRand::new(42);
    let mut r2 = ZooRand::new(42);
    let z1 = TermZoo::generate(&sig, &mut r1);
    let z2 = TermZoo::generate(&sig, &mut r2);
    assert_eq!(z1.terms().len(), z2.terms().len());
    for (a, b) in z1.terms().iter().zip(z2.terms().iter()) {
        assert_eq!(a.serialize(), b.serialize());
    }
    let mut r3 = ZooRand::new(43);
    let z3 = TermZoo::generate(&sig, &mut r3);
    assert_eq!(z1.terms().len(), z3.terms().len());
}

#[test]
fn zoo_abandons_roots_without_nullary_leaves() {
    // extensions can only be appended to existing extension lists, so
    // without a nullary list constructor the depth is always exhausted
    let mut sig = Signature::new();
    sig.new_function(HostFn::ClientExtensionsAppend);
    sig.new_function(HostFn::SupportGroupExtension);
    sig.new_function(HostFn::NamedGroupSecp384r1);
    let mut rand = ZooRand::new(1);
    let zoo = TermZoo::generate(&sig, &mut rand);
    assert_eq!(zoo.terms().len(), 2);

    // the nullary constructor makes every leaf type reachable
    let mut sig2 = Signature::new();
    sig2.new_function(HostFn::ClientExtensionsAppend);
    sig2.new_function(HostFn::SupportGroupExtension);
    sig2.new_function(HostFn::NamedGroupSecp384r1);
    sig2.new_function(HostFn::ClientExtensionsNew);
    let mut rand2 = ZooRand::new(1);
    let zoo2 = TermZoo::generate(&sig2, &mut rand2);
    assert_eq!(zoo2.terms().len(), 4);
}

#[test]
fn serialize_deserialize_serialize_is_bit_equal() {
    let mut sig = Signature::new();
    let hmac_key = sig.new_function(HostFn::Hmac256NewKey);
    let hmac = sig.new_function(HostFn::Hmac256);
    let var = sig.new_var(HostType::Bytes, Some(AgentName::first()), None, 3);
    let term = Term::Application(
        hmac,
        vec![Term::Application(hmac_key, vec![]), Term::Variable(var)],
    );
    let encoded = term.serialize();
    let (reloaded, used) = Term::deserialize(&encoded, 0, &sig).unwrap();
    assert_eq!(used, encoded.len());
    let encoded_again = reloaded.serialize();
    assert_eq!(encoded_again, encoded);
}

#[test]
fn deserialize_rejects_unknown_symbols() {
    let mut sig = Signature::new();
    let hmac_key = sig.new_function(HostFn::Hmac256NewKey);
    let term = Term::Application(hmac_key, vec![]);
    let encoded = term.serialize();
    let empty_sig = Signature::new();
    assert!(Term::deserialize(&encoded, 0, &empty_sig).is_err());
}

#[test]
fn deserialize_rejects_truncated_input() {
    let mut sig = Signature::new();
    let hmac_key = sig.new_function(HostFn::Hmac256NewKey);
    let term = Term::Application(hmac_key, vec![]);
    let mut encoded = term.serialize();
    encoded.pop();
    assert!(Term::deserialize(&encoded, 0, &sig).is_err());
}

#[test]
fn signature_anchor_installs_once() {
    let mut anchor: SignatureAnchor = OnceSlot::empty();
    let mut sig = Signature::new();
    sig.new_function(HostFn::Finished);
    assert!(set_current_signature(&mut anchor, sig).is_ok());
    let active = current_signature(&anchor);
    assert_eq!(active.functions.len(), 1);
    let second = Signature::new();
    assert!(set_current_signature(&mut anchor, second).is_err());
    assert_eq!(current_signature(&anchor).functions.len(), 1);
}

#[test]
fn choose_filtered_draws_only_accepted_terms() {
    let sig = chain_signature();
    let mut rand = ZooRand::new(5);
    let zoo = TermZoo::generate(&sig, &mut rand);
    let leaf = zoo
        .choose_filtered(&|t: &Term| t.is_leaf(), &mut rand)
        .unwrap();
    assert!(leaf.is_leaf());
    let none = zoo.choose_filtered(&|_t: &Term| false, &mut rand);
    assert!(none.is_none());
}

#[test]
fn zoo_terms_stay_within_depth_bound() {
    let sig = chain_signature();
    let mut rand = ZooRand::new(99);
    let zoo = TermZoo::generate(&sig, &mut rand);
    for t in zoo.terms().iter() {
        assert!(t.size() <= 1 << puffin::zoo::MAX_DEPTH);
    }
}
