use java_class::names::method_descriptor_readable;
use java_class::{JVMClassName, JVMFieldLocator, JVMFieldName, JVMMethodLocator, JVMMethodName};

#[test]
fn class_name_unwraps_descriptors() {
    assert_eq!(JVMClassName::new("Ljava/lang/Object;").get_as_binary(), "java/lang/Object");
    assert_eq!(JVMClassName::new("java/lang/Object").get_as_binary(), "java/lang/Object");
    assert_eq!(JVMClassName::new("[I").get_as_binary_str(), "[I");
    assert_eq!(JVMClassName::new("").get_as_binary(), "");
}

#[test]
fn wrapped_and_pretty_forms() {
    let obj = JVMClassName::new("java/lang/Object");
    assert_eq!(obj.get_as_wrapped_binary(), "Ljava/lang/Object;");
    assert_eq!(obj.get_as_pretty(), "java.lang.Object");
    assert_eq!(JVMClassName::new("I").get_as_wrapped_binary(), "I");
    assert_eq!(JVMClassName::new("[Ljava/lang/String;").get_as_wrapped_binary(), "[Ljava/lang/String;");
    // one character, but two bytes: wrapped
    assert_eq!(JVMClassName::new("é").get_as_wrapped_binary(), "Lé;");
}

#[test]
fn wrapped_name_reads_back() {
    for n in ["java/lang/Object", "[I", "I", "", "[[Ljava/lang/String;"] {
        let c = JVMClassName::new(n);
        let w = c.get_as_wrapped_binary();
        assert_eq!(JVMClassName::new(&w).get_as_binary(), n);
    }
    // a class whose own name starts with `L`
    let c = JVMClassName::extract(&mut "LLfoo;".chars()).unwrap();
    assert_eq!(c.get_as_binary(), "Lfoo");
    assert_eq!(c.get_as_wrapped_binary(), "LLfoo;");
    assert_eq!(JVMClassName::new(&c.get_as_wrapped_binary()).get_as_binary(), "Lfoo");
}

#[test]
fn extract_reads_one_type_at_a_time() {
    let mut chars = "IJLjava/lang/String;[[I[Ljava/lang/Object;Z".chars();
    let mut got = vec![];
    while let Some(n) = JVMClassName::extract(&mut chars) {
        got.push(n.get_as_binary());
    }
    assert_eq!(got, vec!["I", "J", "java/lang/String", "[[I", "[Ljava/lang/Object;", "Z"]);
    assert_eq!(chars.as_str(), "");
}

#[test]
fn extract_stops_at_end_of_input() {
    let mut chars = "Ljava/lang".chars();
    assert_eq!(JVMClassName::extract(&mut chars).unwrap().get_as_binary(), "java/lang");
    assert!(JVMClassName::extract(&mut chars).is_none());
    let mut chars = "[".chars();
    assert_eq!(JVMClassName::extract(&mut chars).unwrap().get_as_binary(), "[");
}

#[test]
fn field_names() {
    let f = JVMFieldName::new("count");
    assert_eq!(f.get_as_string(), "count");
    assert_eq!(JVMFieldName::from_owned("x".to_owned()).get_as_str(), "x");
    assert_eq!(JVMFieldName::default().get_as_str(), "");
    let loc = JVMFieldLocator::new("out", "Ljava/io/PrintStream;");
    assert_eq!(loc.get_as_binary(), "java/io/PrintStream out");
    assert_eq!(loc.get_as_pretty(), "java.io.PrintStream out");
    let loc2 = JVMFieldLocator::from_owned("out".to_owned(), "Ljava/io/PrintStream;");
    assert!(loc == loc2);
}

#[test]
fn method_locators() {
    let m = JVMMethodLocator::new("main", "([Ljava/lang/String;)V");
    assert_eq!(m.name.get_as_str(), "main");
    assert_eq!(m.args.len(), 1);
    assert_eq!(m.args[0].get_as_binary(), "[Ljava/lang/String;");
    assert_eq!(m.ret.get_as_binary(), "V");
    assert_eq!(m.get_as_binary(), "main([Ljava/lang/String;)V");
    assert_eq!(m.get_as_pretty(), "V main([Ljava/lang/String;)");

    let m = JVMMethodLocator::new("put", "(ILjava/lang/Object;J)Ljava/lang/Object;");
    let args: Vec<String> = m.args.iter().map(|a| a.get_as_binary()).collect();
    assert_eq!(args, vec!["I", "java/lang/Object", "J"]);
    assert_eq!(m.get_as_binary(), "put(ILjava/lang/Object;J)Ljava/lang/Object;");
    assert_eq!(m.get_as_pretty(), "java.lang.Object put(I, Ljava/lang/Object;, J)");
    let c = m.clone();
    assert!(c == m);
    assert!(c != JVMMethodLocator::new("put", "()V"));
    let d = JVMMethodLocator::default();
    assert_eq!(d.get_as_binary(), "()L;");
}

#[test]
fn method_names() {
    assert_eq!(JVMMethodName::new("<init>").get_as_string(), "<init>");
    assert_eq!(JVMMethodName::from_owned("run".to_owned()).get_as_str(), "run");
    assert!(JVMMethodName::new("a") == JVMMethodName::new("a"));
    assert!(JVMClassName::new("a") != JVMClassName::new("b"));
}

#[test]
fn readable_method_descriptors() {
    assert!(method_descriptor_readable("()V"));
    assert!(method_descriptor_readable("(I)J"));
    assert!(!method_descriptor_readable(""));
    assert!(!method_descriptor_readable("V"));
    assert!(!method_descriptor_readable(")V"));
    assert!(!method_descriptor_readable("(I)"));
    assert!(!method_descriptor_readable("\u{E9}()V"));
}

#[test]
fn method_descriptor_reads_back() {
    let d = "(ILjava/lang/String;[J[[Lp/Q;)V";
    assert_eq!(JVMMethodLocator::new("foo", d).get_as_binary(), format!("foo{}", d));
    let d = "()Ljava/lang/Object;";
    assert_eq!(JVMMethodLocator::new("bar", d).get_as_binary(), format!("bar{}", d));
}
