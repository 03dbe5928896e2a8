use vstd::prelude::*;
use crate::text::{replace, replace_all, str_eq};
use heck::ToLowerCamelCase;

verus! {

/// How a value is passed across the binding boundary.
#[derive(Clone, Copy, Debug, PartialEq, Eq, Structural)]
pub enum TypeKind {
    Value,
    Ref,
    RefMut,
}

/// A type in the binding surface: its Rust name, how it is passed, whether
/// it is one of the library's own classes, and whether it may be null.
#[derive(Clone, Debug)]
pub struct Type {
    pub name: String,
    pub kind: TypeKind,
    pub is_custom: bool,
    pub is_nullable: bool,
}

/// A comment line with the placeholder words written as TypeScript literals.
pub open spec fn comment_text(c: Seq<char>) -> Seq<char> {
    replace_all(replace_all(replace_all(c, "<NULL>"@, "null"@), "<TRUE>"@, "true"@), "<FALSE>"@, "false"@)
}

/// The lines of a doc comment, each on a new line after `indent` and ` * `.
pub open spec fn comment_lines(comments: Seq<String>, indent: Seq<char>) -> Seq<char>
    decreases comments.len(),
{
    if comments.len() == 0 {
        Seq::empty()
    } else {
        comment_lines(comments.drop_last(), indent) + "\n"@ + indent + " * "@ + comment_text(comments.last()@)
    }
}

/// The doc comment of a class: an opening line, one line per comment, and a
/// closing line.
pub open spec fn class_comment_block(comments: Seq<String>) -> Seq<char> {
    "\n/**"@ + comment_lines(comments, ""@) + "\n */"@
}

/// The TypeScript name of a type that is not one of the library's classes.
pub open spec fn primitive_name(name: Seq<char>) -> Seq<char> {
    if name == "i8"@ || name == "i16"@ || name == "i32"@ || name == "i64"@ || name == "u8"@
        || name == "u16"@ || name == "u32"@ || name == "u64"@ || name == "usize"@ || name == "f32"@
        || name == "f64"@ {
        "number"@
    } else if name == "bool"@ {
        "boolean"@
    } else if name == "()"@ {
        "void"@
    } else if name == "c_char"@ {
        "string"@
    } else if name == "Json"@ {
        "any"@
    } else {
        name
    }
}

/// The TypeScript name of a type, leaving out whether it may be null.
pub open spec fn hl_type_without_null(ty: Type) -> Seq<char> {
    if ty.is_custom {
        match ty.kind {
            TypeKind::Ref => ty.name@ + "Ref"@,
            TypeKind::RefMut => ty.name@ + "RefMut"@,
            TypeKind::Value => ty.name@,
        }
    } else {
        primitive_name(ty.name@)
    }
}

/// The TypeScript name of a type, with ` | null` where it may be null.
pub open spec fn hl_type_with_null(ty: Type) -> Seq<char> {
    if ty.is_nullable {
        hl_type_without_null(ty) + " | null"@
    } else {
        hl_type_without_null(ty)
    }
}

/// A function of a class in the binding surface: its Rust name, its
/// parameters with their types, its result type, its doc comment lines,
/// whether it is static (takes no `this`), and whether it returns a value.
#[derive(Clone, Debug)]
pub struct Function {
    pub method: String,
    pub inputs: Vec<(String, Type)>,
    pub output: Type,
    pub comments: Vec<String>,
    pub is_static: bool,
    pub has_return_type: bool,
}

/// What heck's lower camel case makes of a name.
pub uninterp spec fn lower_camel_case(s: Seq<char>) -> Seq<char>;

/// The parameters of a function as TypeScript writes them, separated by
/// commas.
pub open spec fn params_text(inputs: Seq<(String, Type)>) -> Seq<char>
    decreases inputs.len(),
{
    if inputs.len() == 0 {
        Seq::empty()
    } else {
        let p = inputs.last();
        let sep = if inputs.len() > 1 { ", "@ } else { Seq::empty() };
        params_text(inputs.drop_last()) + sep + lower_camel_case(p.0@) + ": "@ + hl_type_with_null(p.1)
    }
}

/// The parameters that a declaration lists: a method's first parameter is
/// the object itself and is left out.
pub open spec fn listed_inputs(f: Function) -> Seq<(String, Type)> {
    if f.is_static || f.inputs@.len() == 0 {
        f.inputs@
    } else {
        f.inputs@.drop_first()
    }
}

/// The name a declaration gives a function: `constructor` for `new`.
pub open spec fn declared_name(f: Function) -> Seq<char> {
    if lower_camel_case(f.method@) == "new"@ {
        "constructor"@
    } else {
        lower_camel_case(f.method@)
    }
}

/// The TypeScript declaration of a function: its doc comment, if any, its
/// name, its parameters and its result type.
pub open spec fn fn_text(f: Function) -> Seq<char> {
    (if f.comments@.len() > 0 {
        "\n    /**"@ + comment_lines(f.comments@, "    "@) + "\n     */"@
    } else {
        Seq::empty()
    }) + "\n    "@ + declared_name(f) + "("@ + params_text(listed_inputs(f)) + (if f.has_return_type {
        "): "@ + hl_type_with_null(f.output) + ";\n        "@
    } else {
        "): void;\n        "@
    })
}

/// A class of the binding surface: its doc comment lines and its functions
/// by how they take the object.
#[derive(Clone, Debug)]
pub struct Class {
    pub comments: Vec<String>,
    pub static_fns: Vec<Function>,
    pub own_fns: Vec<Function>,
    pub shared_fns: Vec<Function>,
    pub mut_fns: Vec<Function>,
}

/// The declarations of the functions `fs`, in order, leaving out those named
/// `drop` where `skip_drop` holds.
pub open spec fn fns_text(fs: Seq<Function>, skip_drop: bool) -> Seq<char>
    decreases fs.len(),
{
    if fs.len() == 0 {
        Seq::empty()
    } else {
        fns_text(fs.drop_last(), skip_drop) + if skip_drop && fs.last().method@ == "drop"@ {
            Seq::empty()
        } else {
            fn_text(fs.last())
        }
    }
}

/// The shared reference class of a class.
pub open spec fn ref_class_text(name: Seq<char>, c: Class) -> Seq<char> {
    class_comment_block(c.comments@) + "\nclass "@ + name + "Ref {"@ + fns_text(c.shared_fns@, false)
        + (if name == "SharedTimer"@ { "\n    readWith<T>(action: (timer: TimerRef) => T): T;\n    writeWith<T>(action: (timer: TimerRefMut) => T): T;\n\t"@ } else { Seq::empty() })
        + "\n    constructor(ptr: number);"@ + "\n}"@
}

/// The mutable reference class of a class, which extends the shared one.
pub open spec fn ref_mut_class_text(name: Seq<char>, c: Class) -> Seq<char> {
    class_comment_block(c.comments@) + "\nclass "@ + name + "RefMut extends "@ + name + "Ref {"@
        + fns_text(c.mut_fns@, false)
        + (if name == "RunEditor"@ { "\n    setGameIconFromArray(data: Int8Array): void;\n    activeSetIconFromArray(data: Int8Array): void;\n\t"@ } else { Seq::empty() })
        + "\n}\n"@
}

/// The owning class of a class, which extends the mutable reference class.
pub open spec fn owned_class_text(name: Seq<char>, c: Class) -> Seq<char> {
    class_comment_block(c.comments@) + "\nclass "@ + name + " extends "@ + name + "RefMut {"@
        + "\n    with<T>(closure: (obj: "@ + name + ") => T): T;\n    dispose();"@
        + fns_text(c.static_fns@ + c.own_fns@, true)
        + (if name == "Run"@ { "\n    static parseArray(data: Int8Array, path: string, loadFiles: boolean): ParseRunResult;\n    static parseFile(file: any, path: string, loadFiles: boolean): ParseRunResult;\n    static parseString(text: string, path: string, loadFiles: boolean): ParseRunResult;\n\t"@ } else { Seq::empty() })
        + "\n}\n"@
}

/// The declarations of one class: a shared reference class, a mutable
/// reference class that extends it, and an owning class that extends that,
/// each with the class's doc comment.
pub open spec fn class_text(name: Seq<char>, c: Class) -> Seq<char> {
    ref_class_text(name, c) + ref_mut_class_text(name, c) + owned_class_text(name, c)
}

/// The declarations of the classes, in order.
pub open spec fn classes_text(classes: Seq<(String, Class)>) -> Seq<char>
    decreases classes.len(),
{
    if classes.len() == 0 {
        Seq::empty()
    } else {
        classes_text(classes.drop_last()) + class_text(classes.last().0@, classes.last().1)
    }
}

/// Whether name `a` comes strictly before name `b` in character order.
pub open spec fn name_less(a: Seq<char>, b: Seq<char>) -> bool
    decreases a.len(),
{
    if a.len() == 0 {
        b.len() > 0
    } else if b.len() == 0 {
        false
    } else if a[0] != b[0] {
        a[0] < b[0]
    } else {
        name_less(a.drop_first(), b.drop_first())
    }
}

/// The TypeScript module declaration of the classes, after `header`.
pub open spec fn module_text(header: Seq<char>, classes: Seq<(String, Class)>) -> Seq<char> {
    "declare module \"livesplit-core\" {"@ + "\n"@ + header + classes_text(classes) + "\n}"@
}

fn comment_line(comment: &str) -> (r: String)
    ensures
        r@ == comment_text(comment@),
{
    proof {
        reveal_strlit("<NULL>");
        reveal_strlit("<TRUE>");
        reveal_strlit("<FALSE>");
    }
    let a = replace(comment, "<NULL>", "null");
    let b = replace(a.as_str(), "<TRUE>", "true");
    replace(b.as_str(), "<FALSE>", "false")
}

fn append_comment_lines(out: &mut String, comments: &Vec<String>, indent: &str)
    ensures
        final(out)@ == old(out)@ + comment_lines(comments@, indent@),
{
    let n = comments.len();
    let mut i: usize = 0;
    assert(comments@.subrange(0, 0) =~= Seq::<String>::empty());
    while i < n
        invariant
            n == comments@.len(),
            i <= n,
            out@ == old(out)@ + comment_lines(comments@.subrange(0, i as int), indent@),
        decreases n - i,
    {
        let line = comment_line(comments[i].as_str());
        assert(comments@.subrange(0, i + 1).drop_last() =~= comments@.subrange(0, i as int));
        out.append("\n");
        out.append(indent);
        out.append(" * ");
        out.append(line.as_str());
        assert(out@ =~= old(out)@ + comment_lines(comments@.subrange(0, i + 1), indent@));
        i = i + 1;
    }
    assert(comments@.subrange(0, n as int) =~= comments@);
}

/// The doc comment of a class in the TypeScript declarations, with the
/// placeholders `<NULL>`, `<TRUE>` and `<FALSE>` written as literals.
pub fn write_class_comments(comments: &Vec<String>) -> (r: String)
    ensures
        r@ == class_comment_block(comments@),
{
    let mut out = String::from_str("\n/**");
    append_comment_lines(&mut out, comments, "");
    out.append("\n */");
    assert(out@ =~= class_comment_block(comments@));
    out
}

fn primitive_type_name(name: &str) -> (r: String)
    ensures
        r@ == primitive_name(name@),
{
    if str_eq(name, "i8") || str_eq(name, "i16") || str_eq(name, "i32") || str_eq(name, "i64")
        || str_eq(name, "u8") || str_eq(name, "u16") || str_eq(name, "u32") || str_eq(name, "u64")
        || str_eq(name, "usize") || str_eq(name, "f32") || str_eq(name, "f64") {
        String::from_str("number")
    } else if str_eq(name, "bool") {
        String::from_str("boolean")
    } else if str_eq(name, "()") {
        String::from_str("void")
    } else if str_eq(name, "c_char") {
        String::from_str("string")
    } else if str_eq(name, "Json") {
        String::from_str("any")
    } else {
        String::from_str(name)
    }
}

/// The TypeScript name of a type, leaving out whether it may be null: a
/// class passed by reference is named by its reference class.
pub fn get_hl_type_without_null(ty: &Type) -> (r: String)
    ensures
        r@ == hl_type_without_null(*ty),
{
    if ty.is_custom {
        let mut out = String::from_str(ty.name.as_str());
        match ty.kind {
            TypeKind::Ref => out.append("Ref"),
            TypeKind::RefMut => out.append("RefMut"),
            TypeKind::Value => {},
        }
        out
    } else {
        primitive_type_name(ty.name.as_str())
    }
}

/// The TypeScript name of a type, with ` | null` where it may be null.
pub fn get_hl_type_with_null(ty: &Type) -> (r: String)
    ensures
        r@ == hl_type_with_null(*ty),
{
    let mut formatted = get_hl_type_without_null(ty);
    if ty.is_nullable {
        formatted.append(" | null");
    }
    formatted
}

/// Relies on heck's `ToLowerCamelCase` for `str`: the result depends on the
/// name alone.
#[verifier::external_body]
fn mixed_case(s: &str) -> (r: String)
    ensures
        r@ == lower_camel_case(s@),
{
    s.to_lower_camel_case()
}

/// The TypeScript declaration of a function of a class.
pub fn write_fn(function: &Function) -> (r: String)
    ensures
        r@ == fn_text(*function),
{
    let mut out = String::new();
    if function.comments.len() > 0 {
        out.append("\n    /**");
        append_comment_lines(&mut out, &function.comments, "    ");
        out.append("\n     */");
    }
    let method = mixed_case(function.method.as_str());
    out.append("\n    ");
    if str_eq(method.as_str(), "new") {
        out.append("constructor");
    } else {
        out.append(method.as_str());
    }
    out.append("(");
    let inputs = &function.inputs;
    let n = inputs.len();
    let start: usize = if function.is_static || n == 0 { 0 } else { 1 };
    let ghost listed = listed_inputs(*function);
    assert(listed =~= inputs@.subrange(start as int, n as int));
    let ghost prefix = out@;
    let mut i: usize = start;
    assert(inputs@.subrange(start as int, start as int) =~= Seq::<(String, Type)>::empty());
    while i < n
        invariant
            n == inputs@.len(),
            start <= i <= n,
            out@ == prefix + params_text(inputs@.subrange(start as int, i as int)),
        decreases n - i,
    {
        let ghost sub = inputs@.subrange(start as int, i + 1);
        assert(sub.drop_last() =~= inputs@.subrange(start as int, i as int));
        if i != start {
            out.append(", ");
        }
        let p = &inputs[i];
        out.append(mixed_case(p.0.as_str()).as_str());
        out.append(": ");
        out.append(get_hl_type_with_null(&p.1).as_str());
        assert(out@ =~= prefix + params_text(sub));
        i = i + 1;
    }
    if function.has_return_type {
        out.append("): ");
        out.append(get_hl_type_with_null(&function.output).as_str());
        out.append(";\n        ");
    } else {
        out.append("): void;\n        ");
    }
    assert(out@ =~= fn_text(*function));
    out
}

fn append_fns(out: &mut String, fs: &Vec<Function>, skip_drop: bool)
    ensures
        final(out)@ == old(out)@ + fns_text(fs@, skip_drop),
{
    let n = fs.len();
    let mut i: usize = 0;
    assert(fs@.subrange(0, 0) =~= Seq::<Function>::empty());
    while i < n
        invariant
            n == fs@.len(),
            i <= n,
            out@ == old(out)@ + fns_text(fs@.subrange(0, i as int), skip_drop),
        decreases n - i,
    {
        assert(fs@.subrange(0, i + 1).drop_last() =~= fs@.subrange(0, i as int));
        let f = &fs[i];
        if !(skip_drop && str_eq(f.method.as_str(), "drop")) {
            let text = write_fn(f);
            out.append(text.as_str());
        }
        assert(out@ =~= old(out)@ + fns_text(fs@.subrange(0, i + 1), skip_drop));
        i = i + 1;
    }
    assert(fs@.subrange(0, n as int) =~= fs@);
}

proof fn lemma_fns_text_concat(a: Seq<Function>, b: Seq<Function>, skip_drop: bool)
    ensures
        fns_text(a + b, skip_drop) == fns_text(a, skip_drop) + fns_text(b, skip_drop),
    decreases b.len(),
{
    if b.len() == 0 {
        assert(a + b =~= a);
        assert(fns_text(b, skip_drop) =~= Seq::<char>::empty());
        assert(fns_text(a, skip_drop) + fns_text(b, skip_drop) =~= fns_text(a, skip_drop));
    } else {
        lemma_fns_text_concat(a, b.drop_last(), skip_drop);
        assert((a + b).drop_last() =~= a + b.drop_last());
        assert((a + b).last() == b.last());
        let last_text = if skip_drop && b.last().method@ == "drop"@ { Seq::<char>::empty() } else { fn_text(b.last()) };
        assert(fns_text(a, skip_drop) + fns_text(b.drop_last(), skip_drop) + last_text
            =~= fns_text(a, skip_drop) + (fns_text(b.drop_last(), skip_drop) + last_text));
    }
}

fn append_ref_class(out: &mut String, comments: &String, name: &str, c: &Class)
    requires
        comments@ == class_comment_block(c.comments@),
    ensures
        final(out)@ == old(out)@ + ref_class_text(name@, *c),
{
    out.append(comments.as_str());
    out.append("\nclass ");
    out.append(name);
    out.append("Ref {");
    append_fns(out, &c.shared_fns, false);
    if str_eq(name, "SharedTimer") {
        out.append("\n    readWith<T>(action: (timer: TimerRef) => T): T;\n    writeWith<T>(action: (timer: TimerRefMut) => T): T;\n\t");
    }
    out.append("\n    constructor(ptr: number);");
    out.append("\n}");
    assert(out@ =~= old(out)@ + ref_class_text(name@, *c));
}

fn append_ref_mut_class(out: &mut String, comments: &String, name: &str, c: &Class)
    requires
        comments@ == class_comment_block(c.comments@),
    ensures
        final(out)@ == old(out)@ + ref_mut_class_text(name@, *c),
{
    out.append(comments.as_str());
    out.append("\nclass ");
    out.append(name);
    out.append("RefMut extends ");
    out.append(name);
    out.append("Ref {");
    append_fns(out, &c.mut_fns, false);
    if str_eq(name, "RunEditor") {
        out.append("\n    setGameIconFromArray(data: Int8Array): void;\n    activeSetIconFromArray(data: Int8Array): void;\n\t");
    }
    out.append("\n}\n");
    assert(out@ =~= old(out)@ + ref_mut_class_text(name@, *c));
}

fn append_owned_class(out: &mut String, comments: &String, name: &str, c: &Class)
    requires
        comments@ == class_comment_block(c.comments@),
    ensures
        final(out)@ == old(out)@ + owned_class_text(name@, *c),
{
    out.append(comments.as_str());
    out.append("\nclass ");
    out.append(name);
    out.append(" extends ");
    out.append(name);
    out.append("RefMut {");
    out.append("\n    with<T>(closure: (obj: ");
    out.append(name);
    out.append(") => T): T;\n    dispose();");
    append_fns(out, &c.static_fns, true);
    append_fns(out, &c.own_fns, true);
    proof {
        lemma_fns_text_concat(c.static_fns@, c.own_fns@, true);
    }
    if str_eq(name, "Run") {
        out.append("\n    static parseArray(data: Int8Array, path: string, loadFiles: boolean): ParseRunResult;\n    static parseFile(file: any, path: string, loadFiles: boolean): ParseRunResult;\n    static parseString(text: string, path: string, loadFiles: boolean): ParseRunResult;\n\t");
    }
    out.append("\n}\n");
    assert(out@ =~= old(out)@ + owned_class_text(name@, *c));
}

fn append_class(out: &mut String, name: &str, c: &Class)
    ensures
        final(out)@ == old(out)@ + class_text(name@, *c),
{
    let comments = write_class_comments(&c.comments);
    append_ref_class(out, &comments, name, c);
    append_ref_mut_class(out, &comments, name, c);
    append_owned_class(out, &comments, name, c);
    assert(out@ =~= old(out)@ + class_text(name@, *c));
}

/// The TypeScript module declaration of the classes, in the order of their
/// names, which are unique, after `header`.
pub fn write(header: &str, classes: &Vec<(String, Class)>) -> (r: String)
    requires
        forall|i: int, j: int| 0 <= i < j < classes@.len() ==> name_less(classes@[i].0@, classes@[j].0@),
    ensures
        r@ == module_text(header@, classes@),
{
    let mut out = String::from_str("declare module \"livesplit-core\" {");
    out.append("\n");
    out.append(header);
    let ghost prefix = out@;
    let n = classes.len();
    let mut i: usize = 0;
    assert(classes@.subrange(0, 0) =~= Seq::<(String, Class)>::empty());
    while i < n
        invariant
            n == classes@.len(),
            i <= n,
            out@ == prefix + classes_text(classes@.subrange(0, i as int)),
        decreases n - i,
    {
        assert(classes@.subrange(0, i + 1).drop_last() =~= classes@.subrange(0, i as int));
        append_class(&mut out, classes[i].0.as_str(), &classes[i].1);
        assert(out@ =~= prefix + classes_text(classes@.subrange(0, i + 1)));
        i = i + 1;
    }
    out.append("\n}");
    assert(classes@.subrange(0, n as int) =~= classes@);
    assert(out@ =~= module_text(header@, classes@));
    out
}

} // verus!
