//! The structured source-emission engine: an indentation-aware text
//! builder producing deterministic, well-formed generated source. The
//! writer owns its sink — a growing string — and an indentation prefix;
//! scoped helpers guarantee balanced open/close emission however deeply a
//! body recurses.

use vstd::prelude::*;

use crate::descriptor::{Location, SourceCodeInfo};
use crate::text::{join_strs, join_text, spec_lines, split_lines};
use vstd::seq_lib::lemma_concat_associative;

verus! {

/// Field visibility in emitted source.
#[derive(Clone, Copy, PartialEq, Eq, Structural, Debug)]
pub enum Visibility {
    Public,
    Default,
}

/// The source-emission engine: the text written so far and the current
/// indentation prefix.
pub struct CodeWriter {
    pub out: String,
    pub indent: String,
}

/// The characters one emitted line contributes: the indentation prefix,
/// the text and a newline — or a bare newline for empty text, which is
/// never indented.
pub open spec fn line_text(indent: Seq<char>, line: Seq<char>) -> Seq<char> {
    if line.len() == 0 {
        "\n"@
    } else {
        indent + line + "\n"@
    }
}

/// The characters one comment line contributes.
pub open spec fn comment_text(indent: Seq<char>, comment: Seq<char>) -> Seq<char> {
    if comment.len() == 0 {
        line_text(indent, "//"@)
    } else {
        line_text(indent, "// "@ + comment)
    }
}

/// The characters one documentation line contributes.
pub open spec fn documentation_text(indent: Seq<char>, comment: Seq<char>) -> Seq<char> {
    if comment.len() == 0 {
        line_text(indent, "///"@)
    } else {
        line_text(indent, "/// "@ + comment)
    }
}

/// Whether `body` may be run against a fresh writer whose indentation
/// prefix is `inner_indent`.
pub open spec fn body_ready<F: FnOnce(CodeWriter) -> CodeWriter>(
    body: F,
    inner_indent: Seq<char>,
) -> bool {
    forall|w: CodeWriter|
        w.out@ == Seq::<char>::empty() && w.indent@ == inner_indent ==> #[trigger] call_requires(
            body,
            (w,),
        )
}

/// Whether `delta` is text that `body` wrote when run against a fresh
/// writer whose indentation prefix is `inner_indent`.
pub open spec fn body_output<F: FnOnce(CodeWriter) -> CodeWriter>(
    body: F,
    inner_indent: Seq<char>,
    delta: Seq<char>,
) -> bool {
    exists|w: CodeWriter, w2: CodeWriter|
        {
            &&& w.out@ == Seq::<char>::empty()
            &&& w.indent@ == inner_indent
            &&& #[trigger] call_ensures(body, (w,), w2)
            &&& delta == w2.out@
        }
}

/// The generic-argument list of an emitted impl header: empty when there
/// are no arguments, else the arguments in angle brackets.
pub open spec fn impl_args_text(args: Seq<Seq<char>>) -> Seq<char> {
    if args.len() == 0 {
        Seq::empty()
    } else {
        "<"@ + join_text(args, ", "@) + ">"@
    }
}

/// The first index in `locs` whose path equals `path` element-wise.
pub open spec fn find_location(locs: Seq<Location>, path: Seq<i32>) -> Option<int>
    decreases locs.len(),
{
    if locs.len() == 0 {
        None
    } else if locs[0].path@ == path {
        Some(0)
    } else {
        match find_location(locs.drop_first(), path) {
            Some(i) => Some(i + 1),
            None => None,
        }
    }
}

proof fn lemma_find_location_at(locs: Seq<Location>, path: Seq<i32>, i: int)
    requires
        0 <= i < locs.len(),
        locs[i].path@ == path,
        forall|j: int| 0 <= j < i ==> locs[j].path@ != path,
    ensures
        find_location(locs, path) == Some(i),
    decreases i,
{
    if i > 0 {
        lemma_find_location_at(locs.drop_first(), path, i - 1);
    }
}

proof fn lemma_find_location_none(locs: Seq<Location>, path: Seq<i32>)
    requires
        forall|j: int| 0 <= j < locs.len() ==> locs[j].path@ != path,
    ensures
        find_location(locs, path) is None,
    decreases locs.len(),
{
    if locs.len() > 0 {
        lemma_find_location_none(locs.drop_first(), path);
    }
}

/// Whether a comment line begins with four leading spaces: the guard
/// against documentation holding a code block that a renderer might try
/// to compile.
pub open spec fn starts_with_indent(l: Seq<char>) -> bool {
    l.len() >= 4 && l[0] == ' ' && l[1] == ' ' && l[2] == ' ' && l[3] == ' '
}

/// Whether any line of the comment looks like an embedded code block.
pub open spec fn has_code_line(lines: Seq<Seq<char>>) -> bool {
    exists|i: int| 0 <= i < lines.len() && starts_with_indent(#[trigger] lines[i])
}

/// The documentation lines owed to `path`: the comment lines of the
/// location whose path matches exactly, unless none matches or the
/// comment holds a code-block-like line, in which case nothing.
pub open spec fn doc_comment_lines(locs: Seq<Location>, path: Seq<i32>) -> Seq<Seq<char>> {
    match find_location(locs, path) {
        Some(i) => {
            let ls = spec_lines(locs[i].leading_comments@);
            if has_code_line(ls) {
                Seq::empty()
            } else {
                ls
            }
        },
        None => Seq::empty(),
    }
}

/// The characters that emitting the given documentation lines
/// contributes, one `///` line each.
pub open spec fn documentation_lines_text(indent: Seq<char>, lines: Seq<Seq<char>>) -> Seq<char>
    decreases lines.len(),
{
    if lines.len() == 0 {
        Seq::empty()
    } else {
        documentation_text(indent, lines[0]) + documentation_lines_text(indent, lines.drop_first())
    }
}

proof fn lemma_documentation_lines_push(indent: Seq<char>, lines: Seq<Seq<char>>, i: int)
    requires
        0 <= i < lines.len(),
    ensures
        documentation_lines_text(indent, lines.take(i + 1)) == documentation_lines_text(
            indent,
            lines.take(i),
        ) + documentation_text(indent, lines[i]),
    decreases i,
{
    if i == 0 {
        assert(lines.take(1).drop_first() =~= Seq::<Seq<char>>::empty());
        assert(lines.take(0) =~= Seq::<Seq<char>>::empty());
        assert(documentation_lines_text(indent, lines.take(1)) =~= documentation_lines_text(
            indent,
            lines.take(0),
        ) + documentation_text(indent, lines[0]));
    } else {
        lemma_documentation_lines_push(indent, lines.drop_first(), i - 1);
        assert(lines.drop_first().take(i) =~= lines.take(i + 1).drop_first());
        assert(lines.drop_first().take(i - 1) =~= lines.take(i).drop_first());
        assert(lines.drop_first()[i - 1] == lines[i]);
        assert(documentation_lines_text(indent, lines.take(i + 1)) =~= documentation_lines_text(
            indent,
            lines.take(i),
        ) + documentation_text(indent, lines[i]));
    }
}

/// Whether two element paths name the same schema location.
fn path_eq(a: &Vec<i32>, b: &[i32]) -> (r: bool)
    ensures
        r == (a@ == b@),
{
    if a.len() != b.len() {
        return false;
    }
    let n = a.len();
    let mut i: usize = 0;
    while i < n
        invariant
            n == a@.len() == b@.len(),
            i <= n,
            forall|j: int| 0 <= j < i ==> a@[j] == b@[j],
        decreases n - i,
    {
        if a[i] != b[i] {
            return false;
        }
        i = i + 1;
    }
    assert(a@ =~= b@);
    true
}

/// Whether a comment line begins with four leading spaces.
fn starts_with_indent_exec(l: &str) -> (r: bool)
    ensures
        r == starts_with_indent(l@),
{
    if l.unicode_len() < 4 {
        return false;
    }
    l.get_char(0) == ' ' && l.get_char(1) == ' ' && l.get_char(2) == ' ' && l.get_char(3) == ' '
}

/// The boilerplate lines shared by every generated-file header: the
/// machine-readable marker and the lint-suppression directives.
pub open spec fn generated_common_text(indent: Seq<char>) -> Seq<char> {
    line_text(indent, "// @generated"@) + "\n"@ + comment_text(
        indent,
        "https://github.com/Manishearth/rust-clippy/issues/702"@,
    ) + line_text(indent, "#![allow(unknown_lints)]"@) + line_text(indent, "#![allow(clippy)]"@)
        + line_text(indent, "#![allow(clippy::all)]"@) + "\n"@ + line_text(
        indent,
        "#![cfg_attr(rustfmt, rustfmt_skip)]"@,
    ) + "\n"@ + line_text(indent, "#![allow(box_pointers)]"@) + line_text(
        indent,
        "#![allow(dead_code)]"@,
    ) + line_text(indent, "#![allow(missing_docs)]"@) + line_text(
        indent,
        "#![allow(non_camel_case_types)]"@,
    ) + line_text(indent, "#![allow(non_snake_case)]"@) + line_text(
        indent,
        "#![allow(non_upper_case_globals)]"@,
    ) + line_text(indent, "#![allow(trivial_casts)]"@) + line_text(
        indent,
        "#![allow(unused_imports)]"@,
    ) + line_text(indent, "#![allow(unused_results)]"@)
}

impl CodeWriter {
    /// A writer with an empty sink and no indentation.
    pub fn new() -> (r: CodeWriter)
        ensures
            r.out@ == Seq::<char>::empty(),
            r.indent@ == Seq::<char>::empty(),
    {
        CodeWriter { out: String::new(), indent: String::new() }
    }

    /// Emits `line` prefixed by the current indentation, or a bare
    /// newline if `line` is empty.
    pub fn write_line(&mut self, line: &str)
        ensures
            final(self).out@ == old(self).out@ + line_text(old(self).indent@, line@),
            final(self).indent == old(self).indent,
    {
        if line.is_empty() {
            self.out.append("\n");
        } else {
            let prefix = self.indent.clone();
            self.out.append(prefix.as_str());
            self.out.append(line);
            self.out.append("\n");
            assert(self.out@ =~= old(self).out@ + line_text(old(self).indent@, line@));
        }
    }

    /// Emits the fixed boilerplate header of a generated file: the
    /// origin marker and the lint-suppression directives. Idempotent in
    /// content and independent of any descriptor; it must precede all
    /// other emission for a file.
    pub fn write_generated(&mut self)
        ensures
            final(self).out@ == old(self).out@ + line_text(
                old(self).indent@,
                "// This file is generated. Do not edit"@,
            ) + generated_common_text(old(self).indent@),
            final(self).indent == old(self).indent,
    {
        self.write_line("// This file is generated. Do not edit");
        self.write_generated_common();
    }

    /// Emits the generated-file header naming the producing package, its
    /// version and the schema parser, then the common boilerplate.
    pub fn write_generated_by(&mut self, pkg: &str, version: &str, parser: &str)
        ensures
            final(self).out@ == old(self).out@ + line_text(
                old(self).indent@,
                "// This file is generated by "@ + pkg@ + " "@ + version@ + ". Do not edit"@,
            ) + line_text(old(self).indent@, "// .proto file is parsed by "@ + parser@)
                + generated_common_text(old(self).indent@),
            final(self).indent == old(self).indent,
    {
        let line1 = String::from_str("// This file is generated by ").concat(pkg).concat(
            " ",
        ).concat(version).concat(". Do not edit");
        self.write_line(line1.as_str());
        let line2 = String::from_str("// .proto file is parsed by ").concat(parser);
        self.write_line(line2.as_str());
        self.write_generated_common();
    }

    /// Emits the boilerplate shared by every generated-file header.
    #[verifier::rlimit(100)]
    fn write_generated_common(&mut self)
        ensures
            final(self).out@ == old(self).out@ + generated_common_text(old(self).indent@),
            final(self).indent == old(self).indent,
    {
        proof {
            reveal_strlit("");
        }
        let ghost o = self.out@;
        let ghost ind = self.indent@;
        self.write_line("// @generated");
        assert(self.out@ == o + (line_text(ind, "// @generated"@)));
        self.write_line("");
        proof {
            lemma_concat_associative(o, line_text(ind, "// @generated"@), "\n"@);
        }
        assert(self.out@ == o + (line_text(ind, "// @generated"@) + "\n"@));
        self.comment("https://github.com/Manishearth/rust-clippy/issues/702");
        proof {
            lemma_concat_associative(o, line_text(ind, "// @generated"@) + "\n"@, comment_text(ind, "https://github.com/Manishearth/rust-clippy/issues/702"@));
        }
        assert(self.out@ == o + (line_text(ind, "// @generated"@) + "\n"@ + comment_text(ind, "https://github.com/Manishearth/rust-clippy/issues/702"@)));
        self.write_line("#![allow(unknown_lints)]");
        proof {
            lemma_concat_associative(o, line_text(ind, "// @generated"@) + "\n"@ + comment_text(ind, "https://github.com/Manishearth/rust-clippy/issues/702"@), line_text(ind, "#![allow(unknown_lints)]"@));
        }
        assert(self.out@ == o + (line_text(ind, "// @generated"@) + "\n"@ + comment_text(ind, "https://github.com/Manishearth/rust-clippy/issues/702"@) + line_text(ind, "#![allow(unknown_lints)]"@)));
        self.write_line("#![allow(clippy)]");
        proof {
            lemma_concat_associative(o, line_text(ind, "// @generated"@) + "\n"@ + comment_text(ind, "https://github.com/Manishearth/rust-clippy/issues/702"@) + line_text(ind, "#![allow(unknown_lints)]"@), line_text(ind, "#![allow(clippy)]"@));
        }
        assert(self.out@ == o + (line_text(ind, "// @generated"@) + "\n"@ + comment_text(ind, "https://github.com/Manishearth/rust-clippy/issues/702"@) + line_text(ind, "#![allow(unknown_lints)]"@) + line_text(ind, "#![allow(clippy)]"@)));
        self.write_line("#![allow(clippy::all)]");
        proof {
            lemma_concat_associative(o, line_text(ind, "// @generated"@) + "\n"@ + comment_text(ind, "https://github.com/Manishearth/rust-clippy/issues/702"@) + line_text(ind, "#![allow(unknown_lints)]"@) + line_text(ind, "#![allow(clippy)]"@), line_text(ind, "#![allow(clippy::all)]"@));
        }
        assert(self.out@ == o + (line_text(ind, "// @generated"@) + "\n"@ + comment_text(ind, "https://github.com/Manishearth/rust-clippy/issues/702"@) + line_text(ind, "#![allow(unknown_lints)]"@) + line_text(ind, "#![allow(clippy)]"@) + line_text(ind, "#![allow(clippy::all)]"@)));
        self.write_line("");
        proof {
            lemma_concat_associative(o, line_text(ind, "// @generated"@) + "\n"@ + comment_text(ind, "https://github.com/Manishearth/rust-clippy/issues/702"@) + line_text(ind, "#![allow(unknown_lints)]"@) + line_text(ind, "#![allow(clippy)]"@) + line_text(ind, "#![allow(clippy::all)]"@), "\n"@);
        }
        assert(self.out@ == o + (line_text(ind, "// @generated"@) + "\n"@ + comment_text(ind, "https://github.com/Manishearth/rust-clippy/issues/702"@) + line_text(ind, "#![allow(unknown_lints)]"@) + line_text(ind, "#![allow(clippy)]"@) + line_text(ind, "#![allow(clippy::all)]"@) + "\n"@));
        self.write_line("#![cfg_attr(rustfmt, rustfmt_skip)]");
        proof {
            lemma_concat_associative(o, line_text(ind, "// @generated"@) + "\n"@ + comment_text(ind, "https://github.com/Manishearth/rust-clippy/issues/702"@) + line_text(ind, "#![allow(unknown_lints)]"@) + line_text(ind, "#![allow(clippy)]"@) + line_text(ind, "#![allow(clippy::all)]"@) + "\n"@, line_text(ind, "#![cfg_attr(rustfmt, rustfmt_skip)]"@));
        }
        assert(self.out@ == o + (line_text(ind, "// @generated"@) + "\n"@ + comment_text(ind, "https://github.com/Manishearth/rust-clippy/issues/702"@) + line_text(ind, "#![allow(unknown_lints)]"@) + line_text(ind, "#![allow(clippy)]"@) + line_text(ind, "#![allow(clippy::all)]"@) + "\n"@ + line_text(ind, "#![cfg_attr(rustfmt, rustfmt_skip)]"@)));
        self.write_line("");
        proof {
            lemma_concat_associative(o, line_text(ind, "// @generated"@) + "\n"@ + comment_text(ind, "https://github.com/Manishearth/rust-clippy/issues/702"@) + line_text(ind, "#![allow(unknown_lints)]"@) + line_text(ind, "#![allow(clippy)]"@) + line_text(ind, "#![allow(clippy::all)]"@) + "\n"@ + line_text(ind, "#![cfg_attr(rustfmt, rustfmt_skip)]"@), "\n"@);
        }
        assert(self.out@ == o + (line_text(ind, "// @generated"@) + "\n"@ + comment_text(ind, "https://github.com/Manishearth/rust-clippy/issues/702"@) + line_text(ind, "#![allow(unknown_lints)]"@) + line_text(ind, "#![allow(clippy)]"@) + line_text(ind, "#![allow(clippy::all)]"@) + "\n"@ + line_text(ind, "#![cfg_attr(rustfmt, rustfmt_skip)]"@) + "\n"@));
        self.write_line("#![allow(box_pointers)]");
        proof {
            lemma_concat_associative(o, line_text(ind, "// @generated"@) + "\n"@ + comment_text(ind, "https://github.com/Manishearth/rust-clippy/issues/702"@) + line_text(ind, "#![allow(unknown_lints)]"@) + line_text(ind, "#![allow(clippy)]"@) + line_text(ind, "#![allow(clippy::all)]"@) + "\n"@ + line_text(ind, "#![cfg_attr(rustfmt, rustfmt_skip)]"@) + "\n"@, line_text(ind, "#![allow(box_pointers)]"@));
        }
        assert(self.out@ == o + (line_text(ind, "// @generated"@) + "\n"@ + comment_text(ind, "https://github.com/Manishearth/rust-clippy/issues/702"@) + line_text(ind, "#![allow(unknown_lints)]"@) + line_text(ind, "#![allow(clippy)]"@) + line_text(ind, "#![allow(clippy::all)]"@) + "\n"@ + line_text(ind, "#![cfg_attr(rustfmt, rustfmt_skip)]"@) + "\n"@ + line_text(ind, "#![allow(box_pointers)]"@)));
        self.write_line("#![allow(dead_code)]");
        proof {
            lemma_concat_associative(o, line_text(ind, "// @generated"@) + "\n"@ + comment_text(ind, "https://github.com/Manishearth/rust-clippy/issues/702"@) + line_text(ind, "#![allow(unknown_lints)]"@) + line_text(ind, "#![allow(clippy)]"@) + line_text(ind, "#![allow(clippy::all)]"@) + "\n"@ + line_text(ind, "#![cfg_attr(rustfmt, rustfmt_skip)]"@) + "\n"@ + line_text(ind, "#![allow(box_pointers)]"@), line_text(ind, "#![allow(dead_code)]"@));
        }
        assert(self.out@ == o + (line_text(ind, "// @generated"@) + "\n"@ + comment_text(ind, "https://github.com/Manishearth/rust-clippy/issues/702"@) + line_text(ind, "#![allow(unknown_lints)]"@) + line_text(ind, "#![allow(clippy)]"@) + line_text(ind, "#![allow(clippy::all)]"@) + "\n"@ + line_text(ind, "#![cfg_attr(rustfmt, rustfmt_skip)]"@) + "\n"@ + line_text(ind, "#![allow(box_pointers)]"@) + line_text(ind, "#![allow(dead_code)]"@)));
        self.write_line("#![allow(missing_docs)]");
        proof {
            lemma_concat_associative(o, line_text(ind, "// @generated"@) + "\n"@ + comment_text(ind, "https://github.com/Manishearth/rust-clippy/issues/702"@) + line_text(ind, "#![allow(unknown_lints)]"@) + line_text(ind, "#![allow(clippy)]"@) + line_text(ind, "#![allow(clippy::all)]"@) + "\n"@ + line_text(ind, "#![cfg_attr(rustfmt, rustfmt_skip)]"@) + "\n"@ + line_text(ind, "#![allow(box_pointers)]"@) + line_text(ind, "#![allow(dead_code)]"@), line_text(ind, "#![allow(missing_docs)]"@));
        }
        assert(self.out@ == o + (line_text(ind, "// @generated"@) + "\n"@ + comment_text(ind, "https://github.com/Manishearth/rust-clippy/issues/702"@) + line_text(ind, "#![allow(unknown_lints)]"@) + line_text(ind, "#![allow(clippy)]"@) + line_text(ind, "#![allow(clippy::all)]"@) + "\n"@ + line_text(ind, "#![cfg_attr(rustfmt, rustfmt_skip)]"@) + "\n"@ + line_text(ind, "#![allow(box_pointers)]"@) + line_text(ind, "#![allow(dead_code)]"@) + line_text(ind, "#![allow(missing_docs)]"@)));
        self.write_line("#![allow(non_camel_case_types)]");
        proof {
            lemma_concat_associative(o, line_text(ind, "// @generated"@) + "\n"@ + comment_text(ind, "https://github.com/Manishearth/rust-clippy/issues/702"@) + line_text(ind, "#![allow(unknown_lints)]"@) + line_text(ind, "#![allow(clippy)]"@) + line_text(ind, "#![allow(clippy::all)]"@) + "\n"@ + line_text(ind, "#![cfg_attr(rustfmt, rustfmt_skip)]"@) + "\n"@ + line_text(ind, "#![allow(box_pointers)]"@) + line_text(ind, "#![allow(dead_code)]"@) + line_text(ind, "#![allow(missing_docs)]"@), line_text(ind, "#![allow(non_camel_case_types)]"@));
        }
        assert(self.out@ == o + (line_text(ind, "// @generated"@) + "\n"@ + comment_text(ind, "https://github.com/Manishearth/rust-clippy/issues/702"@) + line_text(ind, "#![allow(unknown_lints)]"@) + line_text(ind, "#![allow(clippy)]"@) + line_text(ind, "#![allow(clippy::all)]"@) + "\n"@ + line_text(ind, "#![cfg_attr(rustfmt, rustfmt_skip)]"@) + "\n"@ + line_text(ind, "#![allow(box_pointers)]"@) + line_text(ind, "#![allow(dead_code)]"@) + line_text(ind, "#![allow(missing_docs)]"@) + line_text(ind, "#![allow(non_camel_case_types)]"@)));
        self.write_line("#![allow(non_snake_case)]");
        proof {
            lemma_concat_associative(o, line_text(ind, "// @generated"@) + "\n"@ + comment_text(ind, "https://github.com/Manishearth/rust-clippy/issues/702"@) + line_text(ind, "#![allow(unknown_lints)]"@) + line_text(ind, "#![allow(clippy)]"@) + line_text(ind, "#![allow(clippy::all)]"@) + "\n"@ + line_text(ind, "#![cfg_attr(rustfmt, rustfmt_skip)]"@) + "\n"@ + line_text(ind, "#![allow(box_pointers)]"@) + line_text(ind, "#![allow(dead_code)]"@) + line_text(ind, "#![allow(missing_docs)]"@) + line_text(ind, "#![allow(non_camel_case_types)]"@), line_text(ind, "#![allow(non_snake_case)]"@));
        }
        assert(self.out@ == o + (line_text(ind, "// @generated"@) + "\n"@ + comment_text(ind, "https://github.com/Manishearth/rust-clippy/issues/702"@) + line_text(ind, "#![allow(unknown_lints)]"@) + line_text(ind, "#![allow(clippy)]"@) + line_text(ind, "#![allow(clippy::all)]"@) + "\n"@ + line_text(ind, "#![cfg_attr(rustfmt, rustfmt_skip)]"@) + "\n"@ + line_text(ind, "#![allow(box_pointers)]"@) + line_text(ind, "#![allow(dead_code)]"@) + line_text(ind, "#![allow(missing_docs)]"@) + line_text(ind, "#![allow(non_camel_case_types)]"@) + line_text(ind, "#![allow(non_snake_case)]"@)));
        self.write_line("#![allow(non_upper_case_globals)]");
        proof {
            lemma_concat_associative(o, line_text(ind, "// @generated"@) + "\n"@ + comment_text(ind, "https://github.com/Manishearth/rust-clippy/issues/702"@) + line_text(ind, "#![allow(unknown_lints)]"@) + line_text(ind, "#![allow(clippy)]"@) + line_text(ind, "#![allow(clippy::all)]"@) + "\n"@ + line_text(ind, "#![cfg_attr(rustfmt, rustfmt_skip)]"@) + "\n"@ + line_text(ind, "#![allow(box_pointers)]"@) + line_text(ind, "#![allow(dead_code)]"@) + line_text(ind, "#![allow(missing_docs)]"@) + line_text(ind, "#![allow(non_camel_case_types)]"@) + line_text(ind, "#![allow(non_snake_case)]"@), line_text(ind, "#![allow(non_upper_case_globals)]"@));
        }
        assert(self.out@ == o + (line_text(ind, "// @generated"@) + "\n"@ + comment_text(ind, "https://github.com/Manishearth/rust-clippy/issues/702"@) + line_text(ind, "#![allow(unknown_lints)]"@) + line_text(ind, "#![allow(clippy)]"@) + line_text(ind, "#![allow(clippy::all)]"@) + "\n"@ + line_text(ind, "#![cfg_attr(rustfmt, rustfmt_skip)]"@) + "\n"@ + line_text(ind, "#![allow(box_pointers)]"@) + line_text(ind, "#![allow(dead_code)]"@) + line_text(ind, "#![allow(missing_docs)]"@) + line_text(ind, "#![allow(non_camel_case_types)]"@) + line_text(ind, "#![allow(non_snake_case)]"@) + line_text(ind, "#![allow(non_upper_case_globals)]"@)));
        self.write_line("#![allow(trivial_casts)]");
        proof {
            lemma_concat_associative(o, line_text(ind, "// @generated"@) + "\n"@ + comment_text(ind, "https://github.com/Manishearth/rust-clippy/issues/702"@) + line_text(ind, "#![allow(unknown_lints)]"@) + line_text(ind, "#![allow(clippy)]"@) + line_text(ind, "#![allow(clippy::all)]"@) + "\n"@ + line_text(ind, "#![cfg_attr(rustfmt, rustfmt_skip)]"@) + "\n"@ + line_text(ind, "#![allow(box_pointers)]"@) + line_text(ind, "#![allow(dead_code)]"@) + line_text(ind, "#![allow(missing_docs)]"@) + line_text(ind, "#![allow(non_camel_case_types)]"@) + line_text(ind, "#![allow(non_snake_case)]"@) + line_text(ind, "#![allow(non_upper_case_globals)]"@), line_text(ind, "#![allow(trivial_casts)]"@));
        }
        assert(self.out@ == o + (line_text(ind, "// @generated"@) + "\n"@ + comment_text(ind, "https://github.com/Manishearth/rust-clippy/issues/702"@) + line_text(ind, "#![allow(unknown_lints)]"@) + line_text(ind, "#![allow(clippy)]"@) + line_text(ind, "#![allow(clippy::all)]"@) + "\n"@ + line_text(ind, "#![cfg_attr(rustfmt, rustfmt_skip)]"@) + "\n"@ + line_text(ind, "#![allow(box_pointers)]"@) + line_text(ind, "#![allow(dead_code)]"@) + line_text(ind, "#![allow(missing_docs)]"@) + line_text(ind, "#![allow(non_camel_case_types)]"@) + line_text(ind, "#![allow(non_snake_case)]"@) + line_text(ind, "#![allow(non_upper_case_globals)]"@) + line_text(ind, "#![allow(trivial_casts)]"@)));
        self.write_line("#![allow(unused_imports)]");
        proof {
            lemma_concat_associative(o, line_text(ind, "// @generated"@) + "\n"@ + comment_text(ind, "https://github.com/Manishearth/rust-clippy/issues/702"@) + line_text(ind, "#![allow(unknown_lints)]"@) + line_text(ind, "#![allow(clippy)]"@) + line_text(ind, "#![allow(clippy::all)]"@) + "\n"@ + line_text(ind, "#![cfg_attr(rustfmt, rustfmt_skip)]"@) + "\n"@ + line_text(ind, "#![allow(box_pointers)]"@) + line_text(ind, "#![allow(dead_code)]"@) + line_text(ind, "#![allow(missing_docs)]"@) + line_text(ind, "#![allow(non_camel_case_types)]"@) + line_text(ind, "#![allow(non_snake_case)]"@) + line_text(ind, "#![allow(non_upper_case_globals)]"@) + line_text(ind, "#![allow(trivial_casts)]"@), line_text(ind, "#![allow(unused_imports)]"@));
        }
        assert(self.out@ == o + (line_text(ind, "// @generated"@) + "\n"@ + comment_text(ind, "https://github.com/Manishearth/rust-clippy/issues/702"@) + line_text(ind, "#![allow(unknown_lints)]"@) + line_text(ind, "#![allow(clippy)]"@) + line_text(ind, "#![allow(clippy::all)]"@) + "\n"@ + line_text(ind, "#![cfg_attr(rustfmt, rustfmt_skip)]"@) + "\n"@ + line_text(ind, "#![allow(box_pointers)]"@) + line_text(ind, "#![allow(dead_code)]"@) + line_text(ind, "#![allow(missing_docs)]"@) + line_text(ind, "#![allow(non_camel_case_types)]"@) + line_text(ind, "#![allow(non_snake_case)]"@) + line_text(ind, "#![allow(non_upper_case_globals)]"@) + line_text(ind, "#![allow(trivial_casts)]"@) + line_text(ind, "#![allow(unused_imports)]"@)));
        self.write_line("#![allow(unused_results)]");
        proof {
            lemma_concat_associative(o, line_text(ind, "// @generated"@) + "\n"@ + comment_text(ind, "https://github.com/Manishearth/rust-clippy/issues/702"@) + line_text(ind, "#![allow(unknown_lints)]"@) + line_text(ind, "#![allow(clippy)]"@) + line_text(ind, "#![allow(clippy::all)]"@) + "\n"@ + line_text(ind, "#![cfg_attr(rustfmt, rustfmt_skip)]"@) + "\n"@ + line_text(ind, "#![allow(box_pointers)]"@) + line_text(ind, "#![allow(dead_code)]"@) + line_text(ind, "#![allow(missing_docs)]"@) + line_text(ind, "#![allow(non_camel_case_types)]"@) + line_text(ind, "#![allow(non_snake_case)]"@) + line_text(ind, "#![allow(non_upper_case_globals)]"@) + line_text(ind, "#![allow(trivial_casts)]"@) + line_text(ind, "#![allow(unused_imports)]"@), line_text(ind, "#![allow(unused_results)]"@));
        }
        assert(self.out@ == o + (line_text(ind, "// @generated"@) + "\n"@ + comment_text(ind, "https://github.com/Manishearth/rust-clippy/issues/702"@) + line_text(ind, "#![allow(unknown_lints)]"@) + line_text(ind, "#![allow(clippy)]"@) + line_text(ind, "#![allow(clippy::all)]"@) + "\n"@ + line_text(ind, "#![cfg_attr(rustfmt, rustfmt_skip)]"@) + "\n"@ + line_text(ind, "#![allow(box_pointers)]"@) + line_text(ind, "#![allow(dead_code)]"@) + line_text(ind, "#![allow(missing_docs)]"@) + line_text(ind, "#![allow(non_camel_case_types)]"@) + line_text(ind, "#![allow(non_snake_case)]"@) + line_text(ind, "#![allow(non_upper_case_globals)]"@) + line_text(ind, "#![allow(trivial_casts)]"@) + line_text(ind, "#![allow(unused_imports)]"@) + line_text(ind, "#![allow(unused_results)]"@)));
    }

    /// Emits a line that panics with a work-to-do marker.
    pub fn todo(&mut self, message: &str)
        ensures
            final(self).out@ == old(self).out@ + line_text(
                old(self).indent@,
                "panic!(\"TODO: "@ + message@ + "\");"@,
            ),
            final(self).indent == old(self).indent,
    {
        let line = String::from_str("panic!(\"TODO: ").concat(message).concat("\");");
        self.write_line(line.as_str());
    }

    /// Emits a line that marks the body as not implemented.
    pub fn unimplemented(&mut self)
        ensures
            final(self).out@ == old(self).out@ + line_text(
                old(self).indent@,
                "unimplemented!();"@,
            ),
            final(self).indent == old(self).indent,
    {
        self.write_line("unimplemented!();");
    }

    /// Emits a public constant declaration.
    pub fn pub_const(&mut self, name: &str, field_type: &str, init: &str)
        ensures
            final(self).out@ == old(self).out@ + line_text(
                old(self).indent@,
                "pub const "@ + name@ + ": "@ + field_type@ + " = "@ + init@ + ";"@,
            ),
            final(self).indent == old(self).indent,
    {
        let line = String::from_str("pub const ").concat(name).concat(": ").concat(
            field_type,
        ).concat(" = ").concat(init).concat(";");
        self.write_line(line.as_str());
    }

    /// Emits a lazily initialized static cell declaration.
    pub fn lazy_static(&mut self, name: &str, ty: &str, protobuf_crate_path: &str)
        ensures
            final(self).out@ == old(self).out@ + line_text(
                old(self).indent@,
                "static "@ + name@ + ": "@ + protobuf_crate_path@ + "::rt::Lazy<"@ + ty@ + "> = "@
                    + protobuf_crate_path@ + "::rt::Lazy::INIT;"@,
            ),
            final(self).indent == old(self).indent,
    {
        let line = String::from_str("static ").concat(name).concat(": ").concat(
            protobuf_crate_path,
        ).concat("::rt::Lazy<").concat(ty).concat("> = ").concat(protobuf_crate_path).concat(
            "::rt::Lazy::INIT;",
        );
        self.write_line(line.as_str());
    }

    /// Emits a lazily initialized static cell and a plain call that
    /// fetches it with the given initializer expression.
    pub fn lazy_static_decl_get_simple(
        &mut self,
        name: &str,
        ty: &str,
        init: &str,
        protobuf_crate_path: &str,
    )
        ensures
            final(self).out@ == old(self).out@ + line_text(
                old(self).indent@,
                "static "@ + name@ + ": "@ + protobuf_crate_path@ + "::rt::Lazy<"@ + ty@ + "> = "@
                    + protobuf_crate_path@ + "::rt::Lazy::INIT;"@,
            ) + line_text(old(self).indent@, name@ + ".get("@ + init@ + ")"@),
            final(self).indent == old(self).indent,
    {
        self.lazy_static(name, ty, protobuf_crate_path);
        let line = String::from_str(name).concat(".get(").concat(init).concat(")");
        self.write_line(line.as_str());
    }

    /// Emits one field-initializer entry of a struct literal.
    pub fn field_entry(&mut self, name: &str, value: &str)
        ensures
            final(self).out@ == old(self).out@ + line_text(
                old(self).indent@,
                name@ + ": "@ + value@ + ","@,
            ),
            final(self).indent == old(self).indent,
    {
        let line = String::from_str(name).concat(": ").concat(value).concat(",");
        self.write_line(line.as_str());
    }

    /// Emits one private field declaration.
    pub fn field_decl(&mut self, name: &str, field_type: &str)
        ensures
            final(self).out@ == old(self).out@ + line_text(
                old(self).indent@,
                name@ + ": "@ + field_type@ + ","@,
            ),
            final(self).indent == old(self).indent,
    {
        let line = String::from_str(name).concat(": ").concat(field_type).concat(",");
        self.write_line(line.as_str());
    }

    /// Emits one public field declaration.
    pub fn pub_field_decl(&mut self, name: &str, field_type: &str)
        ensures
            final(self).out@ == old(self).out@ + line_text(
                old(self).indent@,
                "pub "@ + name@ + ": "@ + field_type@ + ","@,
            ),
            final(self).indent == old(self).indent,
    {
        let line = String::from_str("pub ").concat(name).concat(": ").concat(field_type).concat(
            ",",
        );
        self.write_line(line.as_str());
    }

    /// Emits one field declaration under the given visibility.
    pub fn field_decl_vis(&mut self, vis: Visibility, name: &str, field_type: &str)
        ensures
            final(self).out@ == old(self).out@ + line_text(
                old(self).indent@,
                (if vis == Visibility::Public {
                    "pub "@ + name@
                } else {
                    name@
                }) + ": "@ + field_type@ + ","@,
            ),
            final(self).indent == old(self).indent,
    {
        match vis {
            Visibility::Public => self.pub_field_decl(name, field_type),
            Visibility::Default => self.field_decl(name, field_type),
        }
    }

    /// Emits a derive attribute over the given trait names.
    pub fn derive(&mut self, derive: &[&str])
        ensures
            final(self).out@ == old(self).out@ + line_text(
                old(self).indent@,
                "#[derive("@ + join_text(derive@.map_values(|p: &str| p@), ","@) + ")]"@,
            ),
            final(self).indent == old(self).indent,
    {
        let joined = join_strs(derive, ",");
        let line = String::from_str("#[derive(").concat(joined.as_str()).concat(")]");
        self.write_line(line.as_str());
    }

    /// Emits a lint-allow attribute over the given lint names.
    pub fn allow(&mut self, what: &[&str])
        ensures
            final(self).out@ == old(self).out@ + line_text(
                old(self).indent@,
                "#[allow("@ + join_text(what@.map_values(|p: &str| p@), ","@) + ")]"@,
            ),
            final(self).indent == old(self).indent,
    {
        let joined = join_strs(what, ",");
        let line = String::from_str("#[allow(").concat(joined.as_str()).concat(")]");
        self.write_line(line.as_str());
    }

    /// Emits one comment line, bare `//` for empty text.
    pub fn comment(&mut self, comment: &str)
        ensures
            final(self).out@ == old(self).out@ + comment_text(old(self).indent@, comment@),
            final(self).indent == old(self).indent,
    {
        if comment.is_empty() {
            self.write_line("//");
        } else {
            let line = String::from_str("// ").concat(comment);
            self.write_line(line.as_str());
        }
    }

    /// Emits one documentation line, bare `///` for empty text.
    fn documentation(&mut self, comment: &str)
        ensures
            final(self).out@ == old(self).out@ + documentation_text(old(self).indent@, comment@),
            final(self).indent == old(self).indent,
    {
        if comment.is_empty() {
            self.write_line("///");
        } else {
            let line = String::from_str("/// ").concat(comment);
            self.write_line(line.as_str());
        }
    }

    /// Emits the documentation owed to the schema element at `path`: the
    /// comment lines of the location whose path matches exactly, each as
    /// a `///` line. Nothing is emitted when no location matches — the
    /// common case, not an error — or when the comment holds a line
    /// beginning with four spaces, the guard against embedded code
    /// blocks that a documentation renderer might try to compile.
    pub fn all_documentation(&mut self, info: Option<&SourceCodeInfo>, path: &[i32])
        ensures
            final(self).indent == old(self).indent,
            final(self).out@ == old(self).out@ + (match info {
                Some(sci) => documentation_lines_text(
                    old(self).indent@,
                    doc_comment_lines(sci.location@, path@),
                ),
                None => Seq::<char>::empty(),
            }),
    {
        let sci = match info {
            Some(s) => s,
            None => {
                proof {
                    assert(self.out@ =~= self.out@ + Seq::<char>::empty());
                }
                return ;
            },
        };
        let n = sci.location.len();
        let mut i: usize = 0;
        let mut found: Option<usize> = None;
        while i < n
            invariant
                n == sci.location@.len(),
                i <= n,
                match found {
                    Some(j) => j < i && sci.location@[j as int].path@ == path@ && (forall|k: int|
                        0 <= k < j ==> sci.location@[k].path@ != path@),
                    None => forall|k: int| 0 <= k < i ==> sci.location@[k].path@ != path@,
                },
            decreases n - i,
        {
            if found.is_none() && path_eq(&sci.location[i].path, path) {
                found = Some(i);
            }
            i = i + 1;
        }
        let li = match found {
            Some(j) => j,
            None => {
                proof {
                    lemma_find_location_none(sci.location@, path@);
                    assert(self.out@ =~= self.out@ + Seq::<char>::empty());
                }
                return ;
            },
        };
        proof {
            lemma_find_location_at(sci.location@, path@, li as int);
        }
        let lines = split_lines(sci.location[li].leading_comments.as_str());
        let ghost lviews = lines@.map_values(|l: String| l@);
        let m = lines.len();
        let mut j: usize = 0;
        let mut has_code = false;
        while j < m
            invariant
                m == lines@.len(),
                j <= m,
                lviews == lines@.map_values(|l: String| l@),
                has_code <==> (exists|k: int|
                    0 <= k < j && starts_with_indent(#[trigger] lviews[k])),
            decreases m - j,
        {
            assert(lviews[j as int] == lines@[j as int]@);
            if starts_with_indent_exec(lines[j].as_str()) {
                assert(starts_with_indent(lviews[j as int]));
                has_code = true;
            }
            j = j + 1;
        }
        if has_code {
            proof {
                assert(has_code_line(lviews));
                assert(doc_comment_lines(sci.location@, path@) =~= Seq::<Seq<char>>::empty());
                assert(self.out@ =~= self.out@ + documentation_lines_text(
                    self.indent@,
                    doc_comment_lines(sci.location@, path@),
                ));
            }
            return ;
        }
        assert(!has_code_line(lviews));
        assert(doc_comment_lines(sci.location@, path@) == lviews);
        let mut p: usize = 0;
        while p < m
            invariant
                m == lines@.len(),
                p <= m,
                lviews == lines@.map_values(|l: String| l@),
                doc_comment_lines(sci.location@, path@) == lviews,
                self.indent == old(self).indent,
                self.out@ == old(self).out@ + documentation_lines_text(
                    old(self).indent@,
                    lviews.take(p as int),
                ),
            decreases m - p,
        {
            self.documentation(lines[p].as_str());
            proof {
                lemma_documentation_lines_push(old(self).indent@, lviews, p as int);
            }
            p = p + 1;
        }
        proof {
            assert(lviews.take(m as int) =~= lviews);
        }
    }

    /// Emits a trait-method declaration without a body.
    pub fn fn_def(&mut self, sig: &str)
        ensures
            final(self).out@ == old(self).out@ + line_text(
                old(self).indent@,
                "fn "@ + sig@ + ";"@,
            ),
            final(self).indent == old(self).indent,
    {
        let line = String::from_str("fn ").concat(sig).concat(";");
        self.write_line(line.as_str());
    }

    /// Emits a one-line marker-trait implementation.
    pub fn unsafe_impl(&mut self, what: &str, for_what: &str)
        ensures
            final(self).out@ == old(self).out@ + line_text(
                old(self).indent@,
                "unsafe impl "@ + what@ + " for "@ + for_what@ + " {}"@,
            ),
            final(self).indent == old(self).indent,
    {
        let line = String::from_str("unsafe impl ").concat(what).concat(" for ").concat(
            for_what,
        ).concat(" {}");
        self.write_line(line.as_str());
    }

    /// Runs `body` against a fresh writer indented one step deeper and
    /// appends what it wrote; this writer's own indentation is restored
    /// afterwards whatever `body` did.
    pub fn indented<F: FnOnce(CodeWriter) -> CodeWriter>(&mut self, body: F)
        requires
            body_ready(body, old(self).indent@ + "    "@),
        ensures
            final(self).indent == old(self).indent,
            exists|delta: Seq<char>|
                #[trigger] body_output(body, old(self).indent@ + "    "@, delta) && final(self).out@ == old(self).out@ + delta,
    {
        let inner = CodeWriter { out: String::new(), indent: self.indent.clone().concat("    ") };
        let ghost w = inner;
        let inner2 = body(inner);
        self.out.append(inner2.out.as_str());
        proof {
            assert(call_ensures(body, (w,), inner2));
            assert(body_output(body, old(self).indent@ + "    "@, inner2.out@));
        }
    }

    /// Runs `body` against a fresh writer whose every line will carry a
    /// comment prefix, and appends what it wrote.
    pub fn commented<F: FnOnce(CodeWriter) -> CodeWriter>(&mut self, body: F)
        requires
            body_ready(body, "// "@ + old(self).indent@),
        ensures
            final(self).indent == old(self).indent,
            exists|delta: Seq<char>|
                #[trigger] body_output(body, "// "@ + old(self).indent@, delta) && final(self).out@ == old(self).out@ + delta,
    {
        let inner = CodeWriter {
            out: String::new(),
            indent: String::from_str("// ").concat(self.indent.as_str()),
        };
        let ghost w = inner;
        let inner2 = body(inner);
        self.out.append(inner2.out.as_str());
        proof {
            assert(call_ensures(body, (w,), inner2));
            assert(body_output(body, "// "@ + old(self).indent@, inner2.out@));
        }
    }

    /// Writes `first_line`, runs `body` one indentation step deeper,
    /// restores the indentation and writes `last_line`: the sole
    /// mechanism for nested structure, balanced however `body` recurses.
    pub fn block<F: FnOnce(CodeWriter) -> CodeWriter>(
        &mut self,
        first_line: &str,
        last_line: &str,
        cb: F,
    )
        requires
            body_ready(cb, old(self).indent@ + "    "@),
        ensures
            final(self).indent == old(self).indent,
            exists|delta: Seq<char>|
                #[trigger] body_output(cb, old(self).indent@ + "    "@, delta) && final(self).out@
                    == old(self).out@ + line_text(old(self).indent@, first_line@) + delta
                    + line_text(old(self).indent@, last_line@),
    {
        self.write_line(first_line);
        let ghost out1 = self.out@;
        self.indented(cb);
        let ghost out2 = self.out@;
        self.write_line(last_line);
        proof {
            let delta = choose|delta: Seq<char>|
                body_output(cb, old(self).indent@ + "    "@, delta) && out2 == out1 + delta;
            assert(body_output(cb, old(self).indent@ + "    "@, delta) && final(self).out@ == old(self).out@ + line_text(old(self).indent@, first_line@) + delta + line_text(
                old(self).indent@,
                last_line@,
            ));
        }
    }

    /// A block whose opening line is `prefix {` and whose closing line
    /// is `}`.
    pub fn expr_block<F: FnOnce(CodeWriter) -> CodeWriter>(&mut self, prefix: &str, cb: F)
        requires
            body_ready(cb, old(self).indent@ + "    "@),
        ensures
            final(self).indent == old(self).indent,
            exists|delta: Seq<char>|
                #[trigger] body_output(cb, old(self).indent@ + "    "@, delta) && final(self).out@
                    == old(self).out@ + line_text(old(self).indent@, prefix@ + " {"@) + delta
                    + line_text(old(self).indent@, "}"@),
    {
        let first = String::from_str(prefix).concat(" {");
        self.block(first.as_str(), "}", cb);
    }

    /// A block whose opening line is `prefix {` and whose closing line
    /// is `};`.
    pub fn stmt_block<F: FnOnce(CodeWriter) -> CodeWriter>(&mut self, prefix: &str, cb: F)
        requires
            body_ready(cb, old(self).indent@ + "    "@),
        ensures
            final(self).indent == old(self).indent,
            exists|delta: Seq<char>|
                #[trigger] body_output(cb, old(self).indent@ + "    "@, delta) && final(self).out@
                    == old(self).out@ + line_text(old(self).indent@, prefix@ + " {"@) + delta
                    + line_text(old(self).indent@, "};"@),
    {
        let first = String::from_str(prefix).concat(" {");
        self.block(first.as_str(), "};", cb);
    }

    /// An `unsafe { ... }` block.
    pub fn unsafe_expr<F: FnOnce(CodeWriter) -> CodeWriter>(&mut self, cb: F)
        requires
            body_ready(cb, old(self).indent@ + "    "@),
        ensures
            final(self).indent == old(self).indent,
            exists|delta: Seq<char>|
                #[trigger] body_output(cb, old(self).indent@ + "    "@, delta) && final(self).out@
                    == old(self).out@ + line_text(old(self).indent@, "unsafe"@ + " {"@) + delta
                    + line_text(old(self).indent@, "}"@),
    {
        self.expr_block("unsafe", cb);
    }

    /// An `impl name { ... }` block.
    pub fn impl_self_block<F: FnOnce(CodeWriter) -> CodeWriter>(&mut self, name: &str, cb: F)
        requires
            body_ready(cb, old(self).indent@ + "    "@),
        ensures
            final(self).indent == old(self).indent,
            exists|delta: Seq<char>|
                #[trigger] body_output(cb, old(self).indent@ + "    "@, delta) && final(self).out@
                    == old(self).out@ + line_text(old(self).indent@, "impl "@ + name@ + " {"@)
                    + delta + line_text(old(self).indent@, "}"@),
    {
        let prefix = String::from_str("impl ").concat(name);
        self.expr_block(prefix.as_str(), cb);
    }

    /// An `impl tr for ty { ... }` block.
    pub fn impl_for_block<F: FnOnce(CodeWriter) -> CodeWriter>(&mut self, tr: &str, ty: &str, cb: F)
        requires
            body_ready(cb, old(self).indent@ + "    "@),
        ensures
            final(self).indent == old(self).indent,
            exists|delta: Seq<char>|
                #[trigger] body_output(cb, old(self).indent@ + "    "@, delta) && final(self).out@
                    == old(self).out@ + line_text(
                    old(self).indent@,
                    "impl"@ + " "@ + tr@ + " for "@ + ty@ + " {"@,
                ) + delta + line_text(old(self).indent@, "}"@),
    {
        self.impl_args_for_block(&[], tr, ty, cb);
        proof {
            assert(impl_args_text(Seq::<Seq<char>>::empty()) == Seq::<char>::empty());
            assert("impl"@ + Seq::<char>::empty() + " "@ + tr@ + " for "@ + ty@ + " {"@ =~= "impl"@
                + " "@ + tr@ + " for "@ + ty@ + " {"@);
        }
    }

    /// An `impl<args> tr for ty { ... }` block.
    pub fn impl_args_for_block<F: FnOnce(CodeWriter) -> CodeWriter>(
        &mut self,
        args: &[&str],
        tr: &str,
        ty: &str,
        cb: F,
    )
        requires
            body_ready(cb, old(self).indent@ + "    "@),
        ensures
            final(self).indent == old(self).indent,
            exists|delta: Seq<char>|
                #[trigger] body_output(cb, old(self).indent@ + "    "@, delta) && final(self).out@
                    == old(self).out@ + line_text(
                    old(self).indent@,
                    "impl"@ + impl_args_text(args@.map_values(|p: &str| p@)) + " "@ + tr@ + " for "@
                        + ty@ + " {"@,
                ) + delta + line_text(old(self).indent@, "}"@),
    {
        let mut prefix = String::from_str("impl");
        if !args.is_empty() {
            prefix.append("<");
            let joined = join_strs(args, ", ");
            prefix.append(joined.as_str());
            prefix.append(">");
        }
        prefix.append(" ");
        prefix.append(tr);
        prefix.append(" for ");
        prefix.append(ty);
        self.expr_block(prefix.as_str(), cb);
    }

    /// A `pub struct name { ... }` block.
    pub fn pub_struct<F: FnOnce(CodeWriter) -> CodeWriter>(&mut self, name: &str, cb: F)
        requires
            body_ready(cb, old(self).indent@ + "    "@),
        ensures
            final(self).indent == old(self).indent,
            exists|delta: Seq<char>|
                #[trigger] body_output(cb, old(self).indent@ + "    "@, delta) && final(self).out@
                    == old(self).out@ + line_text(
                    old(self).indent@,
                    "pub struct "@ + name@ + " {"@,
                ) + delta + line_text(old(self).indent@, "}"@),
    {
        let prefix = String::from_str("pub struct ").concat(name);
        self.expr_block(prefix.as_str(), cb);
    }

    /// A `struct name { ... }` block.
    pub fn def_struct<F: FnOnce(CodeWriter) -> CodeWriter>(&mut self, name: &str, cb: F)
        requires
            body_ready(cb, old(self).indent@ + "    "@),
        ensures
            final(self).indent == old(self).indent,
            exists|delta: Seq<char>|
                #[trigger] body_output(cb, old(self).indent@ + "    "@, delta) && final(self).out@
                    == old(self).out@ + line_text(old(self).indent@, "struct "@ + name@ + " {"@)
                    + delta + line_text(old(self).indent@, "}"@),
    {
        let prefix = String::from_str("struct ").concat(name);
        self.expr_block(prefix.as_str(), cb);
    }

    /// A `pub enum name { ... }` block.
    pub fn pub_enum<F: FnOnce(CodeWriter) -> CodeWriter>(&mut self, name: &str, cb: F)
        requires
            body_ready(cb, old(self).indent@ + "    "@),
        ensures
            final(self).indent == old(self).indent,
            exists|delta: Seq<char>|
                #[trigger] body_output(cb, old(self).indent@ + "    "@, delta) && final(self).out@
                    == old(self).out@ + line_text(old(self).indent@, "pub enum "@ + name@ + " {"@)
                    + delta + line_text(old(self).indent@, "}"@),
    {
        let prefix = String::from_str("pub enum ").concat(name);
        self.expr_block(prefix.as_str(), cb);
    }

    /// A `pub trait name { ... }` block.
    pub fn pub_trait<F: FnOnce(CodeWriter) -> CodeWriter>(&mut self, name: &str, cb: F)
        requires
            body_ready(cb, old(self).indent@ + "    "@),
        ensures
            final(self).indent == old(self).indent,
            exists|delta: Seq<char>|
                #[trigger] body_output(cb, old(self).indent@ + "    "@, delta) && final(self).out@
                    == old(self).out@ + line_text(old(self).indent@, "pub trait "@ + name@ + " {"@)
                    + delta + line_text(old(self).indent@, "}"@),
    {
        let prefix = String::from_str("pub trait ").concat(name);
        self.expr_block(prefix.as_str(), cb);
    }

    /// A `pub trait name : extend { ... }` block.
    pub fn pub_trait_extend<F: FnOnce(CodeWriter) -> CodeWriter>(
        &mut self,
        name: &str,
        extend: &str,
        cb: F,
    )
        requires
            body_ready(cb, old(self).indent@ + "    "@),
        ensures
            final(self).indent == old(self).indent,
            exists|delta: Seq<char>|
                #[trigger] body_output(cb, old(self).indent@ + "    "@, delta) && final(self).out@
                    == old(self).out@ + line_text(
                    old(self).indent@,
                    "pub trait "@ + name@ + " : "@ + extend@ + " {"@,
                ) + delta + line_text(old(self).indent@, "}"@),
    {
        let prefix = String::from_str("pub trait ").concat(name).concat(" : ").concat(extend);
        self.expr_block(prefix.as_str(), cb);
    }

    /// A function block, `pub fn sig { ... }` or `fn sig { ... }`.
    pub fn fn_block<F: FnOnce(CodeWriter) -> CodeWriter>(&mut self, public: bool, sig: &str, cb: F)
        requires
            body_ready(cb, old(self).indent@ + "    "@),
        ensures
            final(self).indent == old(self).indent,
            exists|delta: Seq<char>|
                #[trigger] body_output(cb, old(self).indent@ + "    "@, delta) && final(self).out@
                    == old(self).out@ + line_text(
                    old(self).indent@,
                    (if public {
                        "pub fn "@ + sig@
                    } else {
                        "fn "@ + sig@
                    }) + " {"@,
                ) + delta + line_text(old(self).indent@, "}"@),
    {
        if public {
            let prefix = String::from_str("pub fn ").concat(sig);
            self.expr_block(prefix.as_str(), cb);
        } else {
            let prefix = String::from_str("fn ").concat(sig);
            self.expr_block(prefix.as_str(), cb);
        }
    }

    /// A `pub fn sig { ... }` block.
    pub fn pub_fn<F: FnOnce(CodeWriter) -> CodeWriter>(&mut self, sig: &str, cb: F)
        requires
            body_ready(cb, old(self).indent@ + "    "@),
        ensures
            final(self).indent == old(self).indent,
            exists|delta: Seq<char>|
                #[trigger] body_output(cb, old(self).indent@ + "    "@, delta) && final(self).out@
                    == old(self).out@ + line_text(old(self).indent@, "pub fn "@ + sig@ + " {"@)
                    + delta + line_text(old(self).indent@, "}"@),
    {
        self.fn_block(true, sig, cb);
    }

    /// A `fn sig { ... }` block.
    pub fn def_fn<F: FnOnce(CodeWriter) -> CodeWriter>(&mut self, sig: &str, cb: F)
        requires
            body_ready(cb, old(self).indent@ + "    "@),
        ensures
            final(self).indent == old(self).indent,
            exists|delta: Seq<char>|
                #[trigger] body_output(cb, old(self).indent@ + "    "@, delta) && final(self).out@
                    == old(self).out@ + line_text(old(self).indent@, "fn "@ + sig@ + " {"@) + delta
                    + line_text(old(self).indent@, "}"@),
    {
        self.fn_block(false, sig, cb);
    }

    /// A `mod name { ... }` block.
    pub fn def_mod<F: FnOnce(CodeWriter) -> CodeWriter>(&mut self, name: &str, cb: F)
        requires
            body_ready(cb, old(self).indent@ + "    "@),
        ensures
            final(self).indent == old(self).indent,
            exists|delta: Seq<char>|
                #[trigger] body_output(cb, old(self).indent@ + "    "@, delta) && final(self).out@
                    == old(self).out@ + line_text(old(self).indent@, "mod "@ + name@ + " {"@)
                    + delta + line_text(old(self).indent@, "}"@),
    {
        let prefix = String::from_str("mod ").concat(name);
        self.expr_block(prefix.as_str(), cb);
    }

    /// A `pub mod name { ... }` block.
    pub fn pub_mod<F: FnOnce(CodeWriter) -> CodeWriter>(&mut self, name: &str, cb: F)
        requires
            body_ready(cb, old(self).indent@ + "    "@),
        ensures
            final(self).indent == old(self).indent,
            exists|delta: Seq<char>|
                #[trigger] body_output(cb, old(self).indent@ + "    "@, delta) && final(self).out@
                    == old(self).out@ + line_text(old(self).indent@, "pub mod "@ + name@ + " {"@)
                    + delta + line_text(old(self).indent@, "}"@),
    {
        let prefix = String::from_str("pub mod ").concat(name);
        self.expr_block(prefix.as_str(), cb);
    }

    /// A `while cond { ... }` block.
    pub fn while_block<F: FnOnce(CodeWriter) -> CodeWriter>(&mut self, cond: &str, cb: F)
        requires
            body_ready(cb, old(self).indent@ + "    "@),
        ensures
            final(self).indent == old(self).indent,
            exists|delta: Seq<char>|
                #[trigger] body_output(cb, old(self).indent@ + "    "@, delta) && final(self).out@
                    == old(self).out@ + line_text(old(self).indent@, "while "@ + cond@ + " {"@)
                    + delta + line_text(old(self).indent@, "}"@),
    {
        let prefix = String::from_str("while ").concat(cond);
        self.expr_block(prefix.as_str(), cb);
    }

    /// An `if cond { ... }` statement.
    pub fn if_stmt<F: FnOnce(CodeWriter) -> CodeWriter>(&mut self, cond: &str, cb: F)
        requires
            body_ready(cb, old(self).indent@ + "    "@),
        ensures
            final(self).indent == old(self).indent,
            exists|delta: Seq<char>|
                #[trigger] body_output(cb, old(self).indent@ + "    "@, delta) && final(self).out@
                    == old(self).out@ + line_text(old(self).indent@, "if "@ + cond@ + " {"@)
                    + delta + line_text(old(self).indent@, "}"@),
    {
        let prefix = String::from_str("if ").concat(cond);
        self.expr_block(prefix.as_str(), cb);
    }

    /// An `if cond {} else { ... }` statement: an empty then-branch and
    /// the body in the else-branch.
    pub fn if_else_stmt<F: FnOnce(CodeWriter) -> CodeWriter>(&mut self, cond: &str, cb: F)
        requires
            body_ready(cb, old(self).indent@ + "    "@),
        ensures
            final(self).indent == old(self).indent,
            exists|delta: Seq<char>|
                #[trigger] body_output(cb, old(self).indent@ + "    "@, delta) && final(self).out@
                    == old(self).out@ + line_text(old(self).indent@, "if "@ + cond@ + " {"@)
                    + line_text(old(self).indent@, "} else {"@) + delta + line_text(
                    old(self).indent@,
                    "}"@,
                ),
    {
        let first = String::from_str("if ").concat(cond).concat(" {");
        self.write_line(first.as_str());
        self.write_line("} else {");
        let ghost out1 = self.out@;
        self.indented(cb);
        let ghost out2 = self.out@;
        self.write_line("}");
        proof {
            let delta = choose|delta: Seq<char>|
                body_output(cb, old(self).indent@ + "    "@, delta) && out2 == out1 + delta;
            assert(body_output(cb, old(self).indent@ + "    "@, delta) && final(self).out@ == old(self).out@ + line_text(old(self).indent@, "if "@ + cond@ + " {"@) + line_text(
                old(self).indent@,
                "} else {"@,
            ) + delta + line_text(old(self).indent@, "}"@));
        }
    }

    /// An `if let decl = expr { ... }` statement.
    pub fn if_let_stmt<F: FnOnce(CodeWriter) -> CodeWriter>(
        &mut self,
        decl: &str,
        expr: &str,
        cb: F,
    )
        requires
            body_ready(cb, old(self).indent@ + "    "@),
        ensures
            final(self).indent == old(self).indent,
            exists|delta: Seq<char>|
                #[trigger] body_output(cb, old(self).indent@ + "    "@, delta) && final(self).out@
                    == old(self).out@ + line_text(
                    old(self).indent@,
                    "if "@ + ("let "@ + decl@ + " = "@ + expr@) + " {"@,
                ) + delta + line_text(old(self).indent@, "}"@),
    {
        let cond = String::from_str("let ").concat(decl).concat(" = ").concat(expr);
        self.if_stmt(cond.as_str(), cb);
    }

    /// An `if let decl = expr {} else { ... }` statement.
    pub fn if_let_else_stmt<F: FnOnce(CodeWriter) -> CodeWriter>(
        &mut self,
        decl: &str,
        expr: &str,
        cb: F,
    )
        requires
            body_ready(cb, old(self).indent@ + "    "@),
        ensures
            final(self).indent == old(self).indent,
            exists|delta: Seq<char>|
                #[trigger] body_output(cb, old(self).indent@ + "    "@, delta) && final(self).out@
                    == old(self).out@ + line_text(
                    old(self).indent@,
                    "if "@ + ("let "@ + decl@ + " = "@ + expr@) + " {"@,
                ) + line_text(old(self).indent@, "} else {"@) + delta + line_text(
                    old(self).indent@,
                    "}"@,
                ),
    {
        let cond = String::from_str("let ").concat(decl).concat(" = ").concat(expr);
        self.if_else_stmt(cond.as_str(), cb);
    }

    /// A `for varn in over { ... };` statement.
    pub fn for_stmt<F: FnOnce(CodeWriter) -> CodeWriter>(&mut self, over: &str, varn: &str, cb: F)
        requires
            body_ready(cb, old(self).indent@ + "    "@),
        ensures
            final(self).indent == old(self).indent,
            exists|delta: Seq<char>|
                #[trigger] body_output(cb, old(self).indent@ + "    "@, delta) && final(self).out@
                    == old(self).out@ + line_text(
                    old(self).indent@,
                    "for "@ + varn@ + " in "@ + over@ + " {"@,
                ) + delta + line_text(old(self).indent@, "};"@),
    {
        let prefix = String::from_str("for ").concat(varn).concat(" in ").concat(over);
        self.stmt_block(prefix.as_str(), cb);
    }

    /// A `match value { ... };` statement.
    pub fn match_block<F: FnOnce(CodeWriter) -> CodeWriter>(&mut self, value: &str, cb: F)
        requires
            body_ready(cb, old(self).indent@ + "    "@),
        ensures
            final(self).indent == old(self).indent,
            exists|delta: Seq<char>|
                #[trigger] body_output(cb, old(self).indent@ + "    "@, delta) && final(self).out@
                    == old(self).out@ + line_text(old(self).indent@, "match "@ + value@ + " {"@)
                    + delta + line_text(old(self).indent@, "};"@),
    {
        let prefix = String::from_str("match ").concat(value);
        self.stmt_block(prefix.as_str(), cb);
    }

    /// A `match value { ... }` expression.
    pub fn match_expr<F: FnOnce(CodeWriter) -> CodeWriter>(&mut self, value: &str, cb: F)
        requires
            body_ready(cb, old(self).indent@ + "    "@),
        ensures
            final(self).indent == old(self).indent,
            exists|delta: Seq<char>|
                #[trigger] body_output(cb, old(self).indent@ + "    "@, delta) && final(self).out@
                    == old(self).out@ + line_text(old(self).indent@, "match "@ + value@ + " {"@)
                    + delta + line_text(old(self).indent@, "}"@),
    {
        let prefix = String::from_str("match ").concat(value);
        self.expr_block(prefix.as_str(), cb);
    }

    /// A `cond => { ... },` match arm with a block body.
    pub fn case_block<F: FnOnce(CodeWriter) -> CodeWriter>(&mut self, cond: &str, cb: F)
        requires
            body_ready(cb, old(self).indent@ + "    "@),
        ensures
            final(self).indent == old(self).indent,
            exists|delta: Seq<char>|
                #[trigger] body_output(cb, old(self).indent@ + "    "@, delta) && final(self).out@
                    == old(self).out@ + line_text(old(self).indent@, cond@ + " => {"@) + delta
                    + line_text(old(self).indent@, "},"@),
    {
        let first = String::from_str(cond).concat(" => {");
        self.block(first.as_str(), "},", cb);
    }

    /// A lazily initialized static cell together with a fetch whose
    /// initializer closure is emitted by `init`.
    pub fn lazy_static_decl_get<F: FnOnce(CodeWriter) -> CodeWriter>(
        &mut self,
        name: &str,
        ty: &str,
        protobuf_crate_path: &str,
        init: F,
    )
        requires
            body_ready(init, old(self).indent@ + "    "@),
        ensures
            final(self).indent == old(self).indent,
            exists|delta: Seq<char>|
                #[trigger] body_output(init, old(self).indent@ + "    "@, delta) && final(self).out@ == old(self).out@ + line_text(
                    old(self).indent@,
                    "static "@ + name@ + ": "@ + protobuf_crate_path@ + "::rt::Lazy<"@ + ty@
                        + "> = "@ + protobuf_crate_path@ + "::rt::Lazy::INIT;"@,
                ) + line_text(old(self).indent@, name@ + ".get(|| {"@) + delta + line_text(
                    old(self).indent@,
                    "})"@,
                ),
    {
        self.lazy_static(name, ty, protobuf_crate_path);
        let open_line = String::from_str(name).concat(".get(|| {");
        self.write_line(open_line.as_str());
        let ghost out1 = self.out@;
        self.indented(init);
        let ghost out2 = self.out@;
        self.write_line("})");
        proof {
            let delta = choose|delta: Seq<char>|
                body_output(init, old(self).indent@ + "    "@, delta) && out2 == out1 + delta;
            assert(body_output(init, old(self).indent@ + "    "@, delta) && final(self).out@ == old(self).out@ + line_text(
                old(self).indent@,
                "static "@ + name@ + ": "@ + protobuf_crate_path@ + "::rt::Lazy<"@ + ty@ + "> = "@
                    + protobuf_crate_path@ + "::rt::Lazy::INIT;"@,
            ) + line_text(old(self).indent@, name@ + ".get(|| {"@) + delta + line_text(
                old(self).indent@,
                "})"@,
            ));
        }
    }

    /// Emits one one-line match arm.
    pub fn case_expr(&mut self, cond: &str, body: &str)
        ensures
            final(self).out@ == old(self).out@ + line_text(
                old(self).indent@,
                cond@ + " => "@ + body@ + ","@,
            ),
            final(self).indent == old(self).indent,
    {
        let line = String::from_str(cond).concat(" => ").concat(body).concat(",");
        self.write_line(line.as_str());
    }
}

} // verus!
