use java_class::class_graph::{ClassEntry, ClassGraph, MethodEntry};

fn class(
    flags: u16,
    name: &str,
    sup: Option<usize>,
    interfaces: Vec<usize>,
    methods: Vec<(&str, MethodEntry)>,
    inner: Option<usize>,
) -> ClassEntry {
    ClassEntry {
        access_flags: flags,
        name: name.to_owned(),
        super_class: sup,
        interfaces,
        methods: methods.into_iter().map(|(k, m)| (k.to_owned(), m)).collect(),
        array_inner: inner,
    }
}

fn m(class: usize, access_flags: u16) -> MethodEntry {
    MethodEntry { class, access_flags }
}

fn sample() -> ClassGraph {
    ClassGraph {
        classes: vec![
            class(0x0021, "java/lang/Object", None, vec![], vec![("toString()Ljava/lang/String;", m(0, 1))], None),
            class(0x0601, "java/lang/Runnable", Some(0), vec![], vec![("run()V", m(1, 0x0401))], None),
            class(0x0021, "p/A", Some(0), vec![1], vec![("run()V", m(2, 1)), ("f()V", m(2, 2))], None),
            class(0x0021, "p/B", Some(2), vec![], vec![("run()V", m(3, 1))], None),
            class(0x0001, "[Lp/A;", Some(0), vec![], vec![], Some(2)),
            class(0x0001, "[Lp/B;", Some(0), vec![], vec![], Some(3)),
            class(0x0601, "q/I2", Some(0), vec![], vec![("g()V", m(6, 1))], None),
            class(0x0021, "q/C", Some(0), vec![6, 1], vec![], None),
        ],
    }
}

#[test]
fn method_resolution() {
    let g = sample();
    assert_eq!(g.resolve_method(3, "run", "()V"), Ok(m(3, 1)));
    assert_eq!(g.resolve_static_method(3, "run", "()V"), Ok(m(3, 1)));
    assert_eq!(g.resolve_method(1, "run", "()V"), Err("IncompatibleClassChangeError"));
    assert_eq!(g.resolve_method(3, "toString", "()Ljava/lang/String;"), Ok(m(0, 1)));
    assert_eq!(g.resolve_method(3, "nope", "()V"), Err("NoSuchMethodError"));
    assert_eq!(g.resolve_method(7, "g", "()V"), Ok(m(6, 1)));
}

#[test]
fn interface_invocation() {
    let g = sample();
    assert_eq!(g.resolve_method_invokeinterface(2, "f", "()V"), Err("IllegalAccessError"));
    assert_eq!(g.resolve_method_invokeinterface(7, "run", "()V"), Err("AbstractMethodError"));
    assert_eq!(g.resolve_method_invokeinterface(7, "g", "()V"), Ok(m(6, 1)));
    assert_eq!(g.resolve_method_invokeinterface(3, "run", "()V"), Ok(m(3, 1)));
}

#[test]
fn overriding() {
    let g = sample();
    assert_eq!(g.find_override(3, "run()V", m(2, 1)), Some(m(3, 1)));
    assert_eq!(g.find_override(2, "run()V", m(2, 1)), Some(m(2, 1)));
    assert_eq!(g.find_override(0, "run()V", m(2, 1)), None);
    assert_eq!(g.resolve_method_invokevirtual(3, "run", "()V", m(2, 1)), Ok(m(3, 1)));
    assert_eq!(g.resolve_method_invokevirtual(7, "g", "()V", m(2, 1)), Ok(m(6, 1)));
}

#[test]
fn special_invocation() {
    let g = sample();
    // B is marked ACC_SUPER: the search starts in A
    assert_eq!(g.resolve_method_invokespecial(3, "run", "()V"), Ok(m(2, 1)));
    assert_eq!(g.resolve_method_invokespecial(3, "foo", "()V"), Err("AbstractMethodError"));
    // an interface takes a public method of java/lang/Object
    assert_eq!(g.resolve_method_invokespecial(6, "toString", "()Ljava/lang/String;"), Ok(m(0, 1)));
}

#[test]
fn subtypes() {
    let g = sample();
    assert!(g.is_subclass_of(3, 0));
    assert!(g.is_subclass_of(3, 3));
    assert!(!g.is_subclass_of(2, 3));
    assert!(g.implements(7, 1));
    assert!(!g.implements(2, 6));
    assert!(g.instanceof(3, 2));
    assert!(!g.instanceof(2, 3));
    assert!(g.instanceof(1, 0));
    assert!(g.instanceof(5, 4));
    assert!(!g.instanceof(4, 5));
    assert!(!g.instanceof(4, 1));
    // a class is an instance of the interfaces that it or a superclass implements
    assert!(g.instanceof(7, 6));
    assert!(g.instanceof(7, 1));
    assert!(g.instanceof(2, 1));
    assert!(g.instanceof(3, 1));
    assert!(!g.instanceof(0, 1));
    assert!(!g.instanceof(3, 6));
    assert!(g.superclass_implements(3, 1));
    assert!(!g.superclass_implements(2, 6));
    // an interface is an instance of java/lang/Object and of no other class
    assert!(g.instanceof(6, 0));
    assert!(!g.instanceof(6, 2));
    for c in 0..g.classes.len() {
        assert!(g.instanceof(c, c));
    }
}

#[test]
fn class_properties() {
    let g = sample();
    assert_eq!(g.classes[0].get_package(), "java/lang");
    assert_eq!(class(0, "java/lang/String", None, vec![], vec![], None).get_package(), "java/lang");
    assert_eq!(class(0, "a/b/c/D", None, vec![], vec![], None).get_package(), "a/b/c");
    assert_eq!(g.classes[3].get_package(), "p");
    assert_eq!(class(0, "A", None, vec![], vec![], None).get_package(), "");
    assert!(g.classes[4].is_array());
    assert!(!g.classes[3].is_array());
    assert!(g.classes[0].is_object());
    assert!(!g.classes[2].is_object());
    // a primitive class has no superclass and is not java/lang/Object
    assert!(!class(0x0411, "I", None, vec![], vec![], None).is_object());
    assert!(g.classes[1].is_interface());
    assert_eq!(g.class_index("java/lang/Object"), Some(0));
    assert_eq!(g.class_index("q/C"), Some(7));
    assert_eq!(g.class_index("nope"), None);
}

#[test]
fn interface_method_resolution() {
    let mut g = sample();
    assert_eq!(g.resolve_interface_method(1, "run", "()V"), Ok(m(1, 0x0401)));
    assert_eq!(g.resolve_interface_method(6, "toString", "()Ljava/lang/String;"), Ok(m(0, 1)));
    assert_eq!(g.resolve_interface_method(2, "run", "()V"), Err("IncompatibleClassChangeError"));
    g.classes.push(class(0x0601, "q/I3", Some(0), vec![6, 1], vec![], None)); // 8
    g.classes.push(class(0x0601, "q/I4", Some(0), vec![], vec![("g()V", m(9, 1))], None)); // 9
    g.classes.push(class(0x0601, "q/I5", Some(0), vec![6, 9], vec![], None)); // 10
    assert_eq!(g.resolve_interface_method(8, "g", "()V"), Ok(m(6, 1)));
    // two default methods: the one gathered first (from the last listed interface) wins
    assert_eq!(g.resolve_interface_method(10, "g", "()V"), Ok(m(9, 1)));
    assert_eq!(g.resolve_interface_method(8, "h", "()V"), Err("NoSuchMethodError"));
}

fn push_u16(v: &mut Vec<u8>, x: u16) {
    v.push((x >> 8) as u8);
    v.push(x as u8);
}

fn push_utf8(v: &mut Vec<u8>, s: &str) {
    v.push(1);
    push_u16(v, s.len() as u16);
    v.extend_from_slice(s.as_bytes());
}

#[test]
fn parsed_class_joins_the_graph() {
    let mut v = vec![0xCA, 0xFE, 0xBA, 0xBE, 0, 0, 0, 52];
    push_u16(&mut v, 7);
    v.extend_from_slice(&[7, 0, 2]);
    push_utf8(&mut v, "p/D");
    v.extend_from_slice(&[7, 0, 4]);
    push_utf8(&mut v, "p/A");
    push_utf8(&mut v, "run");
    push_utf8(&mut v, "()V");
    push_u16(&mut v, 0x0021);
    push_u16(&mut v, 1);
    push_u16(&mut v, 3);
    push_u16(&mut v, 0);
    push_u16(&mut v, 0);
    push_u16(&mut v, 1);
    push_u16(&mut v, 0x0001);
    push_u16(&mut v, 5);
    push_u16(&mut v, 6);
    push_u16(&mut v, 0);
    push_u16(&mut v, 0);
    let jc = java_class::class::JavaClass::new_from_bytes(v).unwrap();
    assert!(!ClassGraph { classes: vec![] }.can_add(&jc));
    let mut g = sample();
    assert!(g.can_add(&jc));
    let idx = g.add_class(&jc);
    assert_eq!(idx, 8);
    let e = &g.classes[8];
    assert_eq!(e.name, "p/D");
    assert_eq!(e.super_class, Some(2));
    assert_eq!(e.methods, vec![("run()V".to_owned(), m(8, 1))]);
    assert_eq!(g.resolve_method(8, "run", "()V"), Ok(m(8, 1)));
    assert_eq!(g.find_override(8, "run()V", m(2, 1)), Some(m(8, 1)));
    assert!(g.instanceof(8, 2));
}

#[test]
fn package_private_methods_are_overridden_only_within_their_package() {
    let g = ClassGraph {
        classes: vec![
            class(0x0021, "java/lang/Object", None, vec![], vec![], None),
            class(0x0021, "x/a/A", Some(0), vec![], vec![("m()V", m(1, 0))], None),
            class(0x0021, "x/b/B", Some(1), vec![], vec![("m()V", m(2, 1))], None),
            class(0x0021, "x/a/C", Some(1), vec![], vec![("m()V", m(3, 1))], None),
        ],
    };
    assert_eq!(g.find_override(2, "m()V", m(1, 0)), Some(m(1, 0)));
    assert_eq!(g.find_override(3, "m()V", m(1, 0)), Some(m(3, 1)));
}
