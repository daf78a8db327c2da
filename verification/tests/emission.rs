use protogen::code_writer::{CodeWriter, Visibility};
use protogen::descriptor::{Location, SourceCodeInfo};

#[test]
fn write_line_indents_nonempty_only() {
    let mut w = CodeWriter::new();
    w.write_line("top");
    w.expr_block("fn main()", |mut inner: CodeWriter| {
        inner.write_line("body();");
        inner.write_line("");
        inner
    });
    assert_eq!(w.out, "top\nfn main() {\n    body();\n\n}\n");
    assert_eq!(w.indent, "");
}

#[test]
fn nested_blocks_stay_balanced() {
    let mut w = CodeWriter::new();
    w.pub_struct("Outer", |mut s: CodeWriter| {
        s.pub_field_decl("x", "u32");
        s
    });
    w.impl_self_block("Outer", |mut i: CodeWriter| {
        i.def_fn("get(&self) -> u32", |mut b: CodeWriter| {
            b.write_line("self.x");
            b
        });
        i
    });
    assert_eq!(
        w.out,
        "pub struct Outer {\n    pub x: u32,\n}\nimpl Outer {\n    fn get(&self) -> u32 {\n        self.x\n    }\n}\n"
    );
}

#[test]
fn statement_and_match_shapes() {
    let mut w = CodeWriter::new();
    w.match_block("x", |mut m: CodeWriter| {
        m.case_expr("0", "a()");
        m.case_block("_", |mut c: CodeWriter| {
            c.write_line("b();");
            c
        });
        m
    });
    assert_eq!(
        w.out,
        "match x {\n    0 => a(),\n    _ => {\n        b();\n    },\n};\n"
    );
}

#[test]
fn control_flow_helpers() {
    let mut w = CodeWriter::new();
    w.if_stmt("a", |mut b: CodeWriter| {
        b.write_line("t();");
        b
    });
    w.if_else_stmt("c", |mut b: CodeWriter| {
        b.write_line("e();");
        b
    });
    w.for_stmt("xs", "x", |mut b: CodeWriter| {
        b.write_line("use_x();");
        b
    });
    w.while_block("go", |mut b: CodeWriter| {
        b.write_line("step();");
        b
    });
    assert_eq!(
        w.out,
        "if a {\n    t();\n}\nif c {\n} else {\n    e();\n}\nfor x in xs {\n    use_x();\n};\nwhile go {\n    step();\n}\n"
    );
}

#[test]
fn if_let_shapes() {
    let mut w = CodeWriter::new();
    w.if_let_stmt("Some(v)", "opt", |mut b: CodeWriter| {
        b.write_line("v;");
        b
    });
    w.if_let_else_stmt("Some(v)", "opt", |mut b: CodeWriter| {
        b.write_line("none();");
        b
    });
    assert_eq!(
        w.out,
        "if let Some(v) = opt {\n    v;\n}\nif let Some(v) = opt {\n} else {\n    none();\n}\n"
    );
}

#[test]
fn commented_prefixes_every_level() {
    let mut w = CodeWriter::new();
    w.commented(|mut c: CodeWriter| {
        c.write_line("hidden();");
        c
    });
    assert_eq!(w.out, "// hidden();\n");
}

#[test]
fn declaration_helpers() {
    let mut w = CodeWriter::new();
    w.pub_const("N", "u32", "3");
    w.field_entry("a", "1");
    w.field_decl_vis(Visibility::Public, "b", "u8");
    w.field_decl_vis(Visibility::Default, "c", "u8");
    w.fn_def("len(&self) -> usize");
    w.unsafe_impl("Send", "T");
    w.todo("later");
    w.unimplemented();
    assert_eq!(
        w.out,
        "pub const N: u32 = 3;\na: 1,\npub b: u8,\nc: u8,\nfn len(&self) -> usize;\nunsafe impl Send for T {}\npanic!(\"TODO: later\");\nunimplemented!();\n"
    );
}

#[test]
fn derive_and_allow_join_names() {
    let mut w = CodeWriter::new();
    w.derive(&["Clone", "Debug"]);
    w.allow(&["dead_code"]);
    assert_eq!(w.out, "#[derive(Clone,Debug)]\n#[allow(dead_code)]\n");
}

#[test]
fn comment_empty_and_nonempty() {
    let mut w = CodeWriter::new();
    w.comment("");
    w.comment("note");
    assert_eq!(w.out, "//\n// note\n");
}

#[test]
fn impl_blocks_with_generics() {
    let mut w = CodeWriter::new();
    w.impl_for_block("Clone", "Thing", |c: CodeWriter| c);
    w.impl_args_for_block(&["'a", "T"], "View", "Holder<'a, T>", |c: CodeWriter| c);
    assert_eq!(
        w.out,
        "impl Clone for Thing {\n}\nimpl<'a, T> View for Holder<'a, T> {\n}\n"
    );
}

#[test]
fn trait_module_enum_shapes() {
    let mut w = CodeWriter::new();
    w.pub_trait("Marker", |c: CodeWriter| c);
    w.pub_trait_extend("Sub", "Marker", |c: CodeWriter| c);
    w.pub_enum("E", |mut c: CodeWriter| {
        c.write_line("A,");
        c
    });
    w.def_struct("S", |c: CodeWriter| c);
    w.def_mod("inner", |c: CodeWriter| c);
    w.pub_mod("outer", |c: CodeWriter| c);
    w.pub_fn("f()", |c: CodeWriter| c);
    w.match_expr("y", |c: CodeWriter| c);
    w.unsafe_expr(|c: CodeWriter| c);
    w.stmt_block("loop", |c: CodeWriter| c);
    assert_eq!(
        w.out,
        "pub trait Marker {\n}\npub trait Sub : Marker {\n}\npub enum E {\n    A,\n}\nstruct S {\n}\nmod inner {\n}\npub mod outer {\n}\npub fn f() {\n}\nmatch y {\n}\nunsafe {\n}\nloop {\n};\n"
    );
}

#[test]
fn lazy_static_helpers() {
    let mut w = CodeWriter::new();
    w.lazy_static("CELL", "u32", "pb");
    w.lazy_static_decl_get_simple("CELL2", "u32", "mk", "pb");
    w.lazy_static_decl_get("CELL3", "u32", "pb", |mut b: CodeWriter| {
        b.write_line("init()");
        b
    });
    assert_eq!(
        w.out,
        "static CELL: pb::rt::Lazy<u32> = pb::rt::Lazy::INIT;\n\
         static CELL2: pb::rt::Lazy<u32> = pb::rt::Lazy::INIT;\nCELL2.get(mk)\n\
         static CELL3: pb::rt::Lazy<u32> = pb::rt::Lazy::INIT;\nCELL3.get(|| {\n    init()\n})\n"
    );
}

#[test]
fn generated_headers() {
    let mut w = CodeWriter::new();
    w.write_generated();
    assert!(w.out.starts_with("// This file is generated. Do not edit\n// @generated\n"));
    assert!(w.out.contains("#![allow(non_camel_case_types)]\n"));

    let mut w2 = CodeWriter::new();
    w2.write_generated_by("rust-protobuf", "3.0.0", "protoc");
    assert!(w2
        .out
        .starts_with("// This file is generated by rust-protobuf 3.0.0. Do not edit\n// .proto file is parsed by protoc\n// @generated\n"));
}

fn info_with(path: Vec<i32>, comment: &str) -> SourceCodeInfo {
    SourceCodeInfo {
        location: vec![Location {
            path,
            leading_comments: String::from(comment),
        }],
    }
}

#[test]
fn documentation_exact_match_emits_lines() {
    let info = info_with(vec![4, 0, 2, 0], "field doc");
    let mut w = CodeWriter::new();
    w.all_documentation(Some(&info), &[4, 0, 2, 0]);
    assert_eq!(w.out, "/// field doc\n");
}

#[test]
fn documentation_no_match_emits_nothing() {
    let info = info_with(vec![4, 0, 2, 0], "field doc");
    let mut w = CodeWriter::new();
    w.all_documentation(Some(&info), &[4, 0, 2, 1]);
    assert_eq!(w.out, "");
    w.all_documentation(None, &[4, 0, 2, 0]);
    assert_eq!(w.out, "");
}

#[test]
fn documentation_code_block_suppresses_all() {
    let info = info_with(vec![4, 0, 2, 0], "intro\n    code();\noutro");
    let mut w = CodeWriter::new();
    w.all_documentation(Some(&info), &[4, 0, 2, 0]);
    assert_eq!(w.out, "");
}

#[test]
fn documentation_multiline_and_blank_lines() {
    let info = info_with(vec![4], "first\n\nsecond\n");
    let mut w = CodeWriter::new();
    w.all_documentation(Some(&info), &[4]);
    assert_eq!(w.out, "/// first\n///\n/// second\n");
}

#[test]
fn documentation_strips_carriage_returns() {
    let info = info_with(vec![4], "win\r\nline");
    let mut w = CodeWriter::new();
    w.all_documentation(Some(&info), &[4]);
    assert_eq!(w.out, "/// win\n/// line\n");
}

#[test]
fn documentation_first_matching_location_wins() {
    let info = SourceCodeInfo {
        location: vec![
            Location {
                path: vec![4, 0],
                leading_comments: String::from("first"),
            },
            Location {
                path: vec![4, 0],
                leading_comments: String::from("second"),
            },
        ],
    };
    let mut w = CodeWriter::new();
    w.all_documentation(Some(&info), &[4, 0]);
    assert_eq!(w.out, "/// first\n");
}

#[test]
fn indented_restores_outer_indentation() {
    let mut w = CodeWriter::new();
    w.indented(|mut i: CodeWriter| {
        i.write_line("deep");
        i
    });
    w.write_line("shallow");
    assert_eq!(w.out, "    deep\nshallow\n");
}

#[test]
fn block_wraps_body_between_lines() {
    let mut w = CodeWriter::new();
    w.block("begin", "end", |mut b: CodeWriter| {
        b.write_line("middle");
        b
    });
    assert_eq!(w.out, "begin\n    middle\nend\n");
}
