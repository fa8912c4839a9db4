use yapall::signatures::{first_repeated, AllocType, PatternError, Signature, Signatures};

#[test]
fn it_works() {
    let sigs = Signatures::new(Vec::new());
    assert!(sigs.unwrap().signatures_for("f").is_none());
}

#[test]
fn effects_of_all_matching_patterns_in_order() {
    let sigs = Signatures::new(vec![
        ("^x".to_string(), vec![Signature::ReturnAlloc { kind: AllocType::Heap }]),
        ("alloc$".to_string(), vec![Signature::ReturnAliasesArg { arg: 0 }]),
        ("^xalloc$".to_string(), vec![
            Signature::ArgMemcpyArg { dst: 0, src: 1 },
            Signature::ReturnPointsToGlobal { global: "g".to_string() },
        ]),
    ])
    .unwrap();
    let found = sigs.signatures_for("xalloc").unwrap();
    assert_eq!(found.len(), 4);
    assert!(matches!(found[0], Signature::ReturnAlloc { kind: AllocType::Heap }));
    assert!(matches!(found[1], Signature::ReturnAliasesArg { arg: 0 }));
    assert!(matches!(found[2], Signature::ArgMemcpyArg { dst: 0, src: 1 }));
    assert!(matches!(&found[3], Signature::ReturnPointsToGlobal { global } if global == "g"));
    let found = sigs.signatures_for("malloc").unwrap();
    assert_eq!(found.len(), 1);
    assert!(matches!(found[0], Signature::ReturnAliasesArg { arg: 0 }));
    assert!(sigs.signatures_for("free").is_none());
    assert!(sigs.has_signatures_for("xyz"));
    assert!(!sigs.has_signatures_for("free"));
}

#[test]
fn collect_follows_the_given_positions() {
    let sigs = Signatures::new(vec![
        ("a".to_string(), vec![Signature::CallsArg { arg: 1 }]),
        ("b".to_string(), vec![Signature::CallsArg { arg: 2 }]),
    ])
    .unwrap();
    assert!(sigs.collect(&vec![]).is_none());
    let both = sigs.collect(&vec![1, 0]).unwrap();
    assert!(matches!(both[0], Signature::CallsArg { arg: 2 }));
    assert!(matches!(both[1], Signature::CallsArg { arg: 1 }));
}

#[test]
fn a_pattern_that_is_no_regular_expression_is_refused() {
    assert!(matches!(
        Signatures::new(vec![("(".to_string(), vec![])]),
        Err(PatternError::Invalid(_))
    ));
}

#[test]
fn a_pattern_in_two_entries_is_refused() {
    let entries = || {
        vec![
            ("a".to_string(), vec![Signature::CallsArg { arg: 1 }]),
            ("b".to_string(), vec![]),
            ("c".to_string(), vec![]),
            ("b".to_string(), vec![Signature::CallsArg { arg: 2 }]),
            ("a".to_string(), vec![]),
        ]
    };
    assert_eq!(first_repeated(&entries()), Some(3));
    match Signatures::new(entries()) {
        Err(e) => {
            assert!(matches!(&e, PatternError::Duplicate(p) if p == "b"));
            assert_eq!(e.text(), "b");
        }
        Ok(_) => panic!("a repeated pattern was accepted"),
    }
    // A repeated pattern is reported before one that does not compile.
    assert!(matches!(
        Signatures::new(vec![("(".to_string(), vec![]), ("(".to_string(), vec![])]),
        Err(PatternError::Duplicate(_))
    ));
    assert_eq!(first_repeated(&vec![("a".to_string(), vec![]), ("b".to_string(), vec![])]), None);
    assert_eq!(first_repeated(&Vec::new()), None);
}

#[test]
fn no_entries_make_no_signatures() {
    let sigs = Signatures::new(Vec::new()).unwrap();
    assert!(!sigs.has_signatures_for(""));
    assert!(sigs.signatures_for("malloc").is_none());
}
