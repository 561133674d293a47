use java_class::attributes::Attribute;
use java_class::class::JavaClass;
use java_class::cp::ConstantPool;
use java_class::cp_info::CPInfo;
use java_class::opcodes::Opcode;
use java_class::runtime::{
    can_plan_load, class_file_parts, cp_name_readable, entry_name_readable, get_name, get_name_cp,
    initialize_start, parse_parameters_return, plan_load, refers_to_itself,
    self_reference_checkable, LoadPlan, LoaderState, MethodCode,
};

fn utf8(s: &str) -> CPInfo {
    CPInfo::Utf8 { length: s.len() as u16, bytes: s.as_bytes().to_vec() }
}

#[test]
fn names_through_the_pool() {
    let cp = ConstantPool::new_with_info(vec![
        CPInfo::Class { name_index: 2 },
        utf8("java/lang/Object"),
        CPInfo::String { string_index: 4 },
        utf8("hi"),
    ]);
    assert_eq!(get_name_cp(&cp, 1), "java/lang/Object");
    assert_eq!(get_name_cp(&cp, 2), "java/lang/Object");
    assert_eq!(get_name_cp(&cp, 3), "hi");
    let mut jc = JavaClass::empty();
    jc.constant_pool = cp;
    assert_eq!(get_name(&jc, &CPInfo::Class { name_index: 2 }), "java/lang/Object");
    assert_eq!(get_name(&jc, &utf8("abc")), "abc");
}

#[test]
fn parameters_and_return() {
    let (params, ret) = parse_parameters_return("(I[JLjava/lang/String;[[Ljava/lang/Object;)V");
    assert_eq!(params, vec!["I", "[J", "java/lang/String", "[[java/lang/Object"]);
    assert_eq!(ret, "V");
    let (params, ret) = parse_parameters_return("()Ljava/lang/String;");
    assert!(params.is_empty());
    assert_eq!(ret, "java/lang/String");
}

#[test]
fn method_code_copies_the_code() {
    let attr = Attribute::Code {
        max_stack: 2,
        max_locals: 3,
        code: vec![Opcode::iconst_1, Opcode::ireturn],
        exception_table: vec![],
        attributes: vec![Attribute::Deprecated],
    };
    let mc = MethodCode::new(&attr);
    assert_eq!(mc.max_stack, 2);
    assert_eq!(mc.max_locals, 3);
    assert_eq!(mc.code, vec![Opcode::iconst_1, Opcode::ireturn]);
    assert!(mc.deprecated);
    assert!(!mc.synthetic);
}

#[test]
fn loading_queue() {
    let mut st = LoaderState::new();
    assert!(!st.has_to_load());
    st.add_to_load("A");
    st.add_to_load("B");
    st.add_loaded("B".to_owned());
    st.add_to_load("B");
    st.add_to_load("C");
    assert!(st.is_class_loaded("B"));
    assert!(!st.is_class_loaded("A"));
    assert_eq!(st.get_to_load(), "A");
    // "B" was queued before it was loaded; it is skipped
    assert_eq!(st.next_to_load().as_deref(), Some("C"));
    assert_eq!(st.next_to_load(), None);
    assert!(!st.has_to_load());
}

#[test]
fn init_stack_and_flag() {
    let mut st = LoaderState::new();
    assert!(!st.has_to_init());
    st.add_to_init("A".to_owned());
    st.add_to_init("B".to_owned());
    assert!(st.has_to_init());
    assert_eq!(st.get_to_init(), "B");
    assert_eq!(st.get_to_init(), "A");
    assert!(!st.is_in_init_loop());
    st.set_in_init_loop(true);
    assert!(st.is_in_init_loop());
}

#[test]
fn class_file_paths() {
    assert_eq!(class_file_parts("java/lang/Object"), vec!["java", "lang", "Object.class"]);
    assert_eq!(class_file_parts("Tester"), vec!["Tester.class"]);
    assert_eq!(class_file_parts("a//b"), vec!["a", "", "b.class"]);
}

#[test]
fn referenced_classes_are_queued() {
    let mut jc = JavaClass::empty();
    jc.constant_pool = ConstantPool::new_with_info(vec![
        CPInfo::Class { name_index: 2 },
        utf8("A"),
        CPInfo::Class { name_index: 4 },
        utf8("B"),
        CPInfo::Class { name_index: 2 },
    ]);
    let mut st = LoaderState::new();
    st.add_loaded("B".to_owned());
    initialize_start(&mut st, &jc);
    assert_eq!(st.get_to_load(), "A");
    assert_eq!(st.get_to_load(), "A");
    assert!(!st.has_to_load());
}

#[test]
fn load_plans() {
    assert_eq!(plan_load("I"), LoadPlan::Primitive);
    assert_eq!(plan_load("Z"), LoadPlan::Primitive);
    assert_eq!(plan_load("[I"), LoadPlan::Array { element: "I".to_owned() });
    assert_eq!(plan_load("[[J"), LoadPlan::Array { element: "[J".to_owned() });
    assert_eq!(plan_load("[Ljava/lang/String;"), LoadPlan::Array { element: "java/lang/String".to_owned() });
    assert_eq!(plan_load("java/lang/String"), LoadPlan::File);
    assert_eq!(plan_load("Tester"), LoadPlan::File);
    // a class in the default package whose name starts with a primitive's letter
    assert_eq!(plan_load("Bar"), LoadPlan::File);
    assert_eq!(plan_load("Int"), LoadPlan::File);
}

#[test]
fn classes_naming_themselves() {
    let mut jc = JavaClass::empty();
    jc.constant_pool = ConstantPool::new_with_info(vec![
        CPInfo::Class { name_index: 2 },
        utf8("A"),
        CPInfo::Class { name_index: 4 },
        utf8("java/lang/Object"),
    ]);
    jc.this_class = java_class::cp::CPIndex::from(1);
    jc.super_class = java_class::cp::CPIndex::from(3);
    assert!(!refers_to_itself(&jc, "A"));
    jc.super_class = java_class::cp::CPIndex::from(1);
    assert!(refers_to_itself(&jc, "A"));
    jc.super_class = java_class::cp::CPIndex::from(3);
    jc.interfaces = vec![java_class::cp::CPIndex::from(1)];
    assert!(refers_to_itself(&jc, "A"));
}

#[test]
fn readable_names() {
    let cp = ConstantPool::new_with_info(vec![
        CPInfo::Class { name_index: 2 },
        utf8("A"),
        CPInfo::String { string_index: 2 },
        CPInfo::Integer { bytes: 1 },
        CPInfo::Class { name_index: 5 },
        CPInfo::Utf8 { length: 1, bytes: vec![0xFF] },
        CPInfo::Class { name_index: 8 },
        CPInfo::Class { name_index: 7 },
        CPInfo::Class { name_index: 6 },
    ]);
    // 5 names itself, 7 and 8 name each other, 6 is no modified UTF-8 (read byte by byte), 9 leads to 6
    assert!(cp_name_readable(&cp, 1));
    assert!(cp_name_readable(&cp, 2));
    assert!(cp_name_readable(&cp, 3));
    assert!(!cp_name_readable(&cp, 4));
    assert!(!cp_name_readable(&cp, 5));
    assert!(cp_name_readable(&cp, 6));
    assert!(!cp_name_readable(&cp, 7));
    assert!(!cp_name_readable(&cp, 0));
    assert!(cp_name_readable(&cp, 9));
    assert!(!cp_name_readable(&cp, 10));
    assert!(entry_name_readable(&cp, 1));
    assert!(entry_name_readable(&cp, 2));
    assert!(!entry_name_readable(&cp, 3));
    assert!(entry_name_readable(&cp, 6));
    assert!(!entry_name_readable(&cp, 7));
    assert!(entry_name_readable(&cp, 9));
    assert!(!entry_name_readable(&cp, 10));
    assert_eq!(get_name_cp(&cp, 6), "\u{FF}");
    assert_eq!(get_name_cp(&cp, 9), "\u{FF}");
    assert!(!entry_name_readable(&cp, 0));
}

#[test]
fn plannable_names() {
    assert!(can_plan_load("I"));
    assert!(can_plan_load("java/lang/String"));
    assert!(can_plan_load("[I"));
    assert!(can_plan_load("[Lp/A;"));
    assert!(!can_plan_load(""));
    assert!(!can_plan_load("["));
    assert!(!can_plan_load("[L"));
    assert!(!can_plan_load("[\u{E9}"));
}

#[test]
fn self_reference_needs_readable_names() {
    let mut jc = JavaClass::empty();
    jc.constant_pool = ConstantPool::new_with_info(vec![
        CPInfo::Class { name_index: 2 },
        utf8("A"),
        CPInfo::Integer { bytes: 0 },
    ]);
    jc.this_class = java_class::cp::CPIndex::from(1);
    jc.super_class = java_class::cp::CPIndex::from(1);
    assert!(self_reference_checkable(&jc, "A"));
    jc.super_class = java_class::cp::CPIndex::from(3);
    assert!(!self_reference_checkable(&jc, "A"));
    assert!(self_reference_checkable(&jc, "java/lang/Object"));
    jc.interfaces = vec![java_class::cp::CPIndex::from(3)];
    assert!(!self_reference_checkable(&jc, "java/lang/Object"));
}
