use puffin::atoms::{AgentName, Matcher, Query, Variable};
use puffin::error::{Error, FnError};
use puffin::host::{
    example_op_c, fn_hmac256, fn_hmac256_new_key, fn_new_session_id, format_args, make_dynamic,
    HostFn,
};
use puffin::knowledge::{Knowledge, TraceContext};
use puffin::signature::Signature;
use puffin::strings::{remove_fn_prefix, remove_prefix};
use puffin::term::{Subterms, Term};
use puffin::types::{HostType, TypeShape};
use puffin::value::EvaluatedTerm;

fn bytes_value(data: Vec<u8>) -> EvaluatedTerm {
    EvaluatedTerm::new(HostType::Bytes, data)
}

#[test]
fn mod_example() {
    let mut sig = Signature::new();
    let hmac256_new_key = sig.new_function(HostFn::Hmac256NewKey);
    let hmac256 = sig.new_function(HostFn::Hmac256);
    let _client_hello = sig.new_function(HostFn::ClientHello);

    let data = "hello".as_bytes().to_vec();

    let variable = sig.new_var(HostType::Bytes, Some(AgentName::first()), None, 0);

    let generated_term = Term::Application(
        hmac256,
        vec![
            Term::Application(hmac256_new_key, vec![]),
            Term::Variable(variable),
        ],
    );

    let mut context = TraceContext::new();
    context.add_knowledge(Knowledge {
        agent: AgentName::first(),
        matcher: None,
        data: bytes_value(data),
    });

    let evaluated = generated_term.evaluate(&context);
    let value = evaluated.as_ref().unwrap();
    let string = value.downcast_ref(HostType::Bytes);
    assert!(string.is_some());
}

#[test]
fn mod_playground() {
    let mut sig = Signature::new();
    let _var_data = fn_new_session_id();

    let func = sig.new_function(HostFn::ExampleOpC);
    let dynamic_fn = func.dynamic_fn();
    let one = EvaluatedTerm::new(HostType::U8, vec![1u8]);
    let out = dynamic_fn.call(&vec![one]).unwrap();
    let halves = out.downcast_ref(HostType::U16).unwrap();
    assert_eq!(halves.as_slice(), &[2u8, 0u8]);
    let shape = func.shape();
    let _rendered = shape.display();

    let session = sig.new_var(HostType::SessionId, Some(AgentName::first()), None, 0);
    let constructed_term = Term::Application(
        func,
        vec![
            Term::Application(sig.new_function(HostFn::ExampleOpC), vec![]),
            Term::Variable(session),
        ],
    );
    let _compact = constructed_term.display();
    let graph = constructed_term.dot_subgraph(0, "test");
    assert!(graph.starts_with("subgraph cluster0 {"));
}

#[test]
fn tests_example() {
    let data = "hello".as_bytes().to_vec();
    let cell = bytes_value(data.clone());
    println!("TypeId of vec array {:?}", cell.type_shape().id);

    let mut sig = Signature::new();
    let hmac_key = sig.new_function(HostFn::Hmac256NewKey);
    let hmac = sig.new_function(HostFn::Hmac256);
    let var = sig.new_var(HostType::Bytes, Some(AgentName::first()), None, 0);
    let generated_term = Term::Application(
        hmac,
        vec![Term::Application(hmac_key, vec![]), Term::Variable(var)],
    );

    let mut context = TraceContext::new();
    context.add_knowledge(Knowledge {
        agent: AgentName::first(),
        matcher: None,
        data: bytes_value(data),
    });

    println!(
        "{:?}",
        generated_term
            .evaluate(&context)
            .as_ref()
            .unwrap()
            .downcast_ref(HostType::Bytes)
    );
}

#[test]
fn tests_playground() {
    let var_data = fn_new_session_id();
    assert!(var_data.is_ok());

    println!("vec {:?}", TypeShape::of(HostType::Bytes).id);
    println!("{:?}", TypeShape::of(HostType::SessionId).id);

    let mut sig = Signature::new();
    let func = sig.new_function(HostFn::ExampleOpC);
    let dynamic_fn = func.dynamic_fn();
    let out = dynamic_fn
        .call(&vec![EvaluatedTerm::new(HostType::U8, vec![1u8])])
        .unwrap();
    println!("{:?}", out.downcast_ref(HostType::U16).unwrap());
    let shape = sig.new_function(HostFn::ExampleOpC).shape();
    println!("{}", shape.display());
    let leaf = Term::Application(func, vec![]);
    println!("{}", leaf.dot_subgraph(0, "test"));
}

fn full_signature() -> Signature {
    let mut sig = Signature::new();
    let fns = [
        HostFn::Hmac256NewKey,
        HostFn::Hmac256,
        HostFn::ClientHello,
        HostFn::Finished,
        HostFn::ProtocolVersion12,
        HostFn::NewSessionId,
        HostFn::NewRandom,
        HostFn::ClientExtensionsAppend,
        HostFn::ClientExtensionsNew,
        HostFn::SupportGroupExtension,
        HostFn::SignatureAlgorithmExtension,
        HostFn::EcPointFormatsExtension,
        HostFn::SignedCertificateTimestampExtension,
        HostFn::RenegotiationInfoExtension,
        HostFn::SignatureAlgorithmCertExtension,
        HostFn::EmptyBytesVec,
        HostFn::NamedGroupSecp384r1,
        HostFn::ClientKeyExchange,
        HostFn::NewCipherSuites,
        HostFn::AppendCipherSuite,
        HostFn::CipherSuite12,
        HostFn::Compressions,
        HostFn::Encrypt12,
        HostFn::Seq0,
        HostFn::Seq1,
        HostFn::ExampleOpC,
    ];
    for f in fns {
        sig.new_function(f);
    }
    sig
}

#[test]
fn test_static_functions() {
    let sig = full_signature();
    let mut joined_fns = String::new();
    for name in sig.function_names() {
        joined_fns.push_str(&name);
        joined_fns.push('\n');
    }
    println!("{}", joined_fns);
    let mut joined_types = String::new();
    for name in puffin::signature::registered_type_names() {
        joined_types.push_str(&name);
        joined_types.push('\n');
    }
    println!("{}", joined_types);
    assert_eq!(sig.function_names().len(), 26);
    assert_eq!(puffin::signature::registered_type_names().len(), 16);
}

#[test]
fn test_normal() {
    assert_eq!(remove_prefix("test::test::Test"), "Test");
}

#[test]
fn test_generic() {
    assert_eq!(remove_prefix("test::test::Test<Asdf>"), "Test<Asdf>");
}

#[test]
fn test_generic_recursive() {
    assert_eq!(remove_prefix("test::test::Test<asdf::Asdf>"), "Test<Asdf>");
}

#[test]
fn remove_prefix_is_idempotent_on_names() {
    for name in [
        "test::test::Test<asdf::Asdf>",
        "alloc::vec::Vec<u8>",
        "plain",
        "a::b::c",
        "Test<Asdf>",
    ] {
        let once = remove_prefix(name);
        let twice = remove_prefix(&once);
        assert_eq!(once, twice);
    }
}

#[test]
fn remove_fn_prefix_drops_every_occurrence() {
    assert_eq!(remove_fn_prefix("fn_hmac256"), "hmac256");
    assert_eq!(remove_fn_prefix("fn_fn_x"), "x");
    assert_eq!(remove_fn_prefix("plain"), "plain");
}

#[test]
fn postorder_iteration_matches_size() {
    let mut sig = Signature::new();
    let hmac_key = sig.new_function(HostFn::Hmac256NewKey);
    let hmac = sig.new_function(HostFn::Hmac256);
    let var = sig.new_var(HostType::Bytes, Some(AgentName::first()), None, 0);
    let term = Term::Application(
        hmac,
        vec![Term::Application(hmac_key, vec![]), Term::Variable(var)],
    );
    let nodes = term.subterms();
    assert_eq!(nodes.len(), term.size());
    assert_eq!(term.size(), 3);
    // children come strictly before their parent: the root is last
    assert_eq!(nodes[2].resistant_id(), term.resistant_id());
    assert!(nodes[0].is_leaf());
}

#[test]
fn builder_rejects_ill_typed_applications() {
    let mut sig = Signature::new();
    let hmac = sig.new_function(HostFn::Hmac256);
    let key_fn = sig.new_function(HostFn::Hmac256NewKey);
    let empty_vec_fn = sig.new_function(HostFn::EmptyBytesVec);

    let good = Term::build_application(
        hmac,
        vec![
            Term::Application(key_fn, vec![]),
            Term::Application(empty_vec_fn, vec![]),
        ],
    );
    assert!(good.is_ok());

    let wrong_arity = Term::build_application(hmac, vec![Term::Application(key_fn, vec![])]);
    assert!(wrong_arity.is_err());

    let wrong_type = Term::build_application(
        hmac,
        vec![
            Term::Application(empty_vec_fn, vec![]),
            Term::Application(empty_vec_fn, vec![]),
        ],
    );
    assert!(wrong_type.is_err());
}

#[test]
fn evaluation_returns_declared_type() {
    let mut sig = Signature::new();
    let hmac_key = sig.new_function(HostFn::Hmac256NewKey);
    let term = Term::Application(hmac_key, vec![]);
    let context = TraceContext::new();
    let value = term.evaluate(&context).unwrap();
    assert_eq!(value.host_type(), HostType::HmacKey);
}

#[test]
fn evaluation_is_deterministic() {
    let mut sig = Signature::new();
    let hmac_key = sig.new_function(HostFn::Hmac256NewKey);
    let hmac = sig.new_function(HostFn::Hmac256);
    let var = sig.new_var(HostType::Bytes, Some(AgentName::first()), None, 0);
    let term = Term::Application(
        hmac,
        vec![Term::Application(hmac_key, vec![]), Term::Variable(var)],
    );
    let mut context = TraceContext::new();
    context.add_knowledge(Knowledge {
        agent: AgentName::first(),
        matcher: None,
        data: bytes_value(b"hello".to_vec()),
    });
    let first = term.evaluate(&context).unwrap().encode();
    let second = term.evaluate(&context).unwrap().encode();
    assert_eq!(first, second);
}

#[test]
fn knowledge_counter_selects_nth_item() {
    let mut context = TraceContext::new();
    for b in [10u8, 20u8, 30u8] {
        context.add_knowledge(Knowledge {
            agent: AgentName::first(),
            matcher: None,
            data: bytes_value(vec![b]),
        });
    }
    for (n, expected) in [(0u16, 10u8), (1, 20), (2, 30)] {
        let q = Query {
            source: Some(AgentName::first()),
            matcher: None,
            counter: n,
        };
        let found = context.find_variable(HostType::Bytes, &q).unwrap();
        assert_eq!(found.bytes, vec![expected]);
    }
    let too_far = Query {
        source: Some(AgentName::first()),
        matcher: None,
        counter: 3,
    };
    assert!(context.find_variable(HostType::Bytes, &too_far).is_none());
}

#[test]
fn knowledge_matcher_narrows_lookup() {
    let mut context = TraceContext::new();
    context.add_knowledge(Knowledge {
        agent: AgentName::first(),
        matcher: Some(Matcher::Tag(7)),
        data: bytes_value(vec![1]),
    });
    context.add_knowledge(Knowledge {
        agent: AgentName::first(),
        matcher: Some(Matcher::Tag(8)),
        data: bytes_value(vec![2]),
    });
    let q = Query {
        source: Some(AgentName::first()),
        matcher: Some(Matcher::Tag(8)),
        counter: 0,
    };
    let found = context.find_variable(HostType::Bytes, &q).unwrap();
    assert_eq!(found.bytes, vec![2]);
    let any = Query {
        source: Some(AgentName::first()),
        matcher: Some(Matcher::Any),
        counter: 1,
    };
    let second = context.find_variable(HostType::Bytes, &any).unwrap();
    assert_eq!(second.bytes, vec![2]);
}

#[test]
fn evaluate_hmac_term_matches_host_function() {
    let mut sig = Signature::new();
    let hmac_key = sig.new_function(HostFn::Hmac256NewKey);
    let hmac = sig.new_function(HostFn::Hmac256);
    let var = sig.new_var(HostType::Bytes, Some(AgentName::first()), None, 0);
    let term = Term::Application(
        hmac,
        vec![Term::Application(hmac_key, vec![]), Term::Variable(var)],
    );
    let mut context = TraceContext::new();
    context.add_knowledge(Knowledge {
        agent: AgentName::first(),
        matcher: None,
        data: bytes_value(b"hello".to_vec()),
    });
    let value = term.evaluate(&context).unwrap();
    let tag = value.downcast_ref(HostType::Bytes).unwrap();

    let key = fn_hmac256_new_key().unwrap();
    let expected = fn_hmac256(&key, &b"hello".to_vec()).unwrap();
    assert_eq!(*tag, expected);
    assert_eq!(tag.len(), 32);
}

#[test]
fn missing_variable_reports_term_error() {
    let mut sig = Signature::new();
    let hmac_key = sig.new_function(HostFn::Hmac256NewKey);
    let hmac = sig.new_function(HostFn::Hmac256);
    let var = sig.new_var(HostType::Bytes, Some(AgentName::first()), None, 0);
    let term = Term::Application(
        hmac,
        vec![Term::Application(hmac_key, vec![]), Term::Variable(var)],
    );
    let empty_context = TraceContext::new();
    match term.evaluate(&empty_context) {
        Err(Error::Term(msg)) => {
            assert!(msg.starts_with("Unable to find variable "));
            assert!(msg.ends_with("!"));
        }
        other => panic!("expected a term error, got {:?}", other),
    }
}

#[test]
fn arity_mismatch_reports_missing_argument() {
    let key = EvaluatedTerm::new(HostType::HmacKey, vec![0u8; 32]);
    match HostFn::Hmac256.call(&vec![key]) {
        Err(FnError::Impl(msg)) => {
            assert!(msg.starts_with("Missing argument #2 while calling "));
        }
        other => panic!("expected an arity failure, got {:?}", other),
    }
}

#[test]
fn type_mismatch_reports_shape() {
    let not_a_key = EvaluatedTerm::new(HostType::U8, vec![1]);
    let msg_arg = EvaluatedTerm::new(HostType::Bytes, vec![]);
    match HostFn::Hmac256.call(&vec![not_a_key, msg_arg]) {
        Err(FnError::Impl(msg)) => {
            assert!(msg.starts_with("Passed argument #1 of "));
            assert!(msg.contains("did not match the shape"));
        }
        other => panic!("expected a shape failure, got {:?}", other),
    }
}

#[test]
fn nullary_application_prints_without_parentheses() {
    let mut sig = Signature::new();
    let finished = sig.new_function(HostFn::Finished);
    let term = Term::Application(finished, vec![]);
    let line = term.display_at_depth(0);
    assert_eq!(line, "fn_finished -> HandshakeMessage");
    assert!(!line.contains('('));
    assert_eq!(term.pretty(), line);
}

#[test]
fn nary_application_prints_arguments_indented() {
    let mut sig = Signature::new();
    let hmac_key = sig.new_function(HostFn::Hmac256NewKey);
    let hmac = sig.new_function(HostFn::Hmac256);
    let var = sig.new_var(HostType::Bytes, Some(AgentName::first()), None, 0);
    let term = Term::Application(
        hmac,
        vec![Term::Application(hmac_key, vec![]), Term::Variable(var)],
    );
    let rendered = term.pretty();
    assert!(rendered.starts_with("fn_hmac256(\n"));
    assert!(rendered.contains("\tfn_hmac256_new_key -> HmacKey"));
    assert!(rendered.ends_with(") -> Vec<u8>"));
}

#[test]
fn dot_subgraph_renders_nodes_and_edges() {
    let mut sig = Signature::new();
    let finished = sig.new_function(HostFn::Finished);
    let leaf = Term::Application(finished, vec![]);
    assert_eq!(
        leaf.dot_subgraph(3, "zoo"),
        "subgraph cluster3 {\n\tlabel=\"zoo\"\n\t\"n3\" [label=\"fn_finished\"]\n}\n"
    );

    let key_fn = sig.new_function(HostFn::Hmac256NewKey);
    let hmac = sig.new_function(HostFn::Hmac256);
    let empty_fn = sig.new_function(HostFn::EmptyBytesVec);
    let tree = Term::Application(
        hmac,
        vec![
            Term::Application(key_fn, vec![]),
            Term::Application(empty_fn, vec![]),
        ],
    );
    let graph = tree.dot_subgraph(0, "corpus");
    assert!(graph.contains("\t\"n0\" [label=\"fn_hmac256\"]\n"));
    assert!(graph.contains("\t\"n0\" -> \"n0_0\"\n"));
    assert!(graph.contains("\t\"n0_1\" [label=\"fn_empty_bytes_vec\"]\n"));
    assert!(graph.ends_with("}\n"));
}

#[test]
fn describe_wraps_shape_and_callable() {
    let (shape, callable) = make_dynamic(&HostFn::ExampleOpC);
    assert_eq!(shape.arity(), 1);
    assert_eq!(callable, HostFn::ExampleOpC);
    let rendered = shape.display();
    assert!(rendered.contains("example_op_c"));
    assert!(rendered.ends_with(" -> u16"));
}

#[test]
fn format_args_lists_type_identities() {
    let args = vec![
        EvaluatedTerm::new(HostType::U8, vec![1]),
        EvaluatedTerm::new(HostType::Bytes, vec![]),
    ];
    assert_eq!(format_args(&args), "(2,1)");
}

#[test]
fn example_op_c_widens_and_increments() {
    assert_eq!(example_op_c(&1u8).unwrap(), 2u16);
    assert_eq!(example_op_c(&255u8).unwrap(), 256u16);
}

#[test]
fn mutate_replaces_whole_subtree() {
    let mut sig = Signature::new();
    let finished = sig.new_function(HostFn::Finished);
    let key_fn = sig.new_function(HostFn::Hmac256NewKey);
    let mut term = Term::Application(finished, vec![]);
    term.mutate(Term::Application(key_fn, vec![]));
    assert_eq!(term.resistant_id(), key_fn.resistant_id);
}

#[test]
fn variables_and_operators_walk_the_tree() {
    let mut sig = Signature::new();
    let hmac_key = sig.new_function(HostFn::Hmac256NewKey);
    let hmac = sig.new_function(HostFn::Hmac256);
    let var = sig.new_var(HostType::Bytes, Some(AgentName::first()), None, 0);
    let term = Term::Application(
        hmac,
        vec![Term::Application(hmac_key, vec![]), Term::Variable(var)],
    );
    let vars = term.variables();
    assert_eq!(vars.len(), 1);
    assert_eq!(vars[0].typ, HostType::Bytes);
    let ops = term.operators();
    assert_eq!(ops.len(), 2);
    assert_eq!(ops[1].resistant_id, hmac.resistant_id);
    assert_eq!(term.args().len(), 2);
}

#[test]
fn find_subterm_same_shape_matches_types() {
    let mut sig = Signature::new();
    let key_fn = sig.new_function(HostFn::Hmac256NewKey);
    let empty_fn = sig.new_function(HostFn::EmptyBytesVec);
    let pool = vec![
        Term::Application(key_fn, vec![]),
        Term::Application(empty_fn, vec![]),
    ];
    let probe = Term::Variable(Variable {
        resistant_id: 0,
        typ: HostType::Bytes,
        query: Query {
            source: None,
            matcher: None,
            counter: 0,
        },
    });
    let found = pool.find_subterm_same_shape(&probe).unwrap();
    assert_eq!(found.resistant_id(), empty_fn.resistant_id);
    let by_predicate = pool.find_subterm(&|t: &Term| t.is_leaf()).unwrap();
    assert!(by_predicate.is_leaf());
}

#[test]
fn filter_grand_subterms_finds_nested_arguments() {
    let mut sig = Signature::new();
    let hmac_key = sig.new_function(HostFn::Hmac256NewKey);
    let hmac = sig.new_function(HostFn::Hmac256);
    let empty_fn = sig.new_function(HostFn::EmptyBytesVec);
    let pool = vec![Term::Application(
        hmac,
        vec![
            Term::Application(hmac_key, vec![]),
            Term::Application(empty_fn, vec![]),
        ],
    )];
    let hits = pool.filter_grand_subterms(&|_parent: &Term, child: &Term| child.is_leaf());
    assert_eq!(hits.len(), 2);
    assert_eq!(hits[0], (0, 0));
    assert_eq!(hits[1], (0, 1));
}
