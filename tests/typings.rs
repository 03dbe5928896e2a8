use livesplit_core::saver::fmt_bool;
use livesplit_core::typings::{
    get_hl_type_with_null, get_hl_type_without_null, write_class_comments, write_fn, Class, Function, Type, TypeKind,
};

fn ty(name: &str, kind: TypeKind, is_custom: bool, is_nullable: bool) -> Type {
    Type { name: name.to_string(), kind, is_custom, is_nullable }
}

#[test]
fn class_comments_replace_placeholders() {
    let comments = vec!["Returns <NULL> or <TRUE>.".to_string(), "Never <FALSE>".to_string()];
    assert_eq!(write_class_comments(&comments), "\n/**\n * Returns null or true.\n * Never false\n */");
    assert_eq!(write_class_comments(&Vec::new()), "\n/**\n */");
}

#[test]
fn custom_types_name_their_reference_classes() {
    assert_eq!(get_hl_type_without_null(&ty("Timer", TypeKind::Ref, true, false)), "TimerRef");
    assert_eq!(get_hl_type_without_null(&ty("Timer", TypeKind::RefMut, true, false)), "TimerRefMut");
    assert_eq!(get_hl_type_without_null(&ty("Timer", TypeKind::Value, true, false)), "Timer");
    assert_eq!(get_hl_type_with_null(&ty("Run", TypeKind::Value, true, true)), "Run | null");
}

#[test]
fn primitive_types_map_to_typescript() {
    assert_eq!(get_hl_type_without_null(&ty("u32", TypeKind::Value, false, false)), "number");
    assert_eq!(get_hl_type_without_null(&ty("f64", TypeKind::Value, false, false)), "number");
    assert_eq!(get_hl_type_without_null(&ty("bool", TypeKind::Value, false, false)), "boolean");
    assert_eq!(get_hl_type_without_null(&ty("()", TypeKind::Value, false, false)), "void");
    assert_eq!(get_hl_type_without_null(&ty("c_char", TypeKind::Ref, false, false)), "string");
    assert_eq!(get_hl_type_without_null(&ty("Json", TypeKind::Value, false, false)), "any");
    assert_eq!(get_hl_type_with_null(&ty("c_char", TypeKind::Ref, false, true)), "string | null");
    assert_eq!(get_hl_type_without_null(&ty("Other", TypeKind::Value, false, false)), "Other");
}

#[test]
fn booleans_are_written_capitalised() {
    assert_eq!(fmt_bool(true), "True");
    assert_eq!(fmt_bool(false), "False");
}

fn function(method: &str, inputs: Vec<(&str, Type)>, output: Type, is_static: bool, has_return_type: bool) -> Function {
    Function {
        method: method.to_string(),
        inputs: inputs.into_iter().map(|(n, t)| (n.to_string(), t)).collect(),
        output,
        comments: Vec::new(),
        is_static,
        has_return_type,
    }
}

#[test]
fn functions_are_declared_in_camel_case() {
    let f = function(
        "split_index",
        vec![("this", ty("Timer", TypeKind::Ref, true, false)), ("segment_name", ty("c_char", TypeKind::Ref, false, true))],
        ty("usize", TypeKind::Value, false, false),
        false,
        true,
    );
    assert_eq!(write_fn(&f), "\n    splitIndex(segmentName: string | null): number;\n        ");
    let g = function("new", vec![], ty("Timer", TypeKind::Value, true, false), true, false);
    assert_eq!(write_fn(&g), "\n    constructor(): void;\n        ");
    let mut h = function("reset", vec![("this", ty("Timer", TypeKind::RefMut, true, false))], ty("()", TypeKind::Value, false, false), false, false);
    h.comments = vec!["Resets <TRUE>".to_string()];
    assert_eq!(write_fn(&h), "\n    /**\n     * Resets true\n     */\n    reset(): void;\n        ");
}

#[test]
fn module_declares_three_classes_per_class() {
    let drop = function("drop", vec![("this", ty("Attempt", TypeKind::Value, true, false))], ty("()", TypeKind::Value, false, false), false, false);
    let index = function("index", vec![("this", ty("Attempt", TypeKind::Ref, true, false))], ty("i32", TypeKind::Value, false, false), false, true);
    let class = Class {
        comments: vec!["An attempt.".to_string()],
        static_fns: Vec::new(),
        own_fns: vec![drop],
        shared_fns: vec![index],
        mut_fns: Vec::new(),
    };
    let text = livesplit_core::typings::write("// header", &vec![("Attempt".to_string(), class)]);
    let expected = "declare module \"livesplit-core\" {\n// header\
\n/**\n * An attempt.\n */\nclass AttemptRef {\n    index(): number;\n        \n    constructor(ptr: number);\n}\
\n/**\n * An attempt.\n */\nclass AttemptRefMut extends AttemptRef {\n}\n\
\n/**\n * An attempt.\n */\nclass Attempt extends AttemptRefMut {\n    with<T>(closure: (obj: Attempt) => T): T;\n    dispose();\n}\n\
\n}";
    assert_eq!(text, expected);
}
