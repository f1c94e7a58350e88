//! Generation of the `build.rs` of a generated project: it compiles the C
//! sources that the subprogram modules name and generates their bindings.

use vstd::prelude::*;
use crate::aadl_ast2rust_code::types::conv_subprogram_type::{spec_module_docs, spec_source_files};
use crate::ast::aadl_ast_cj::ComponentType;
use crate::intermediate_ast::{Item, RustModule};
use crate::text::{
    insert_unique, lemma_insert_all_push, replace_owned, spec_dedup, spec_insert_all, spec_replace,
    spec_split, spec_strip_prefix, spec_trim, spec_trim_matches, split_char, strings_view,
    strip_prefix_owned, trim_matches_owned, trim_owned, seq_join, spec_contains, lemma_insert_all_contents, is_white_space, spec_trim_by, eq_char,
};

verus! {

/// A file name as a `source_files` line lists it: trimmed of white space,
/// then of double quotes, then of single quotes.
pub open spec fn spec_clean_file(f: Seq<char>) -> Seq<char> {
    spec_trim_matches(spec_trim_matches(spec_trim(f), '"'), '\'')
}

/// The cleaned pieces that are not empty, in order.
pub open spec fn spec_clean_pieces(pieces: Seq<Seq<char>>) -> Seq<Seq<char>>
    decreases pieces.len(),
{
    if pieces.len() == 0 {
        Seq::empty()
    } else {
        spec_clean_pieces(pieces.drop_last()) + if spec_clean_file(pieces.last()).len() > 0 {
            seq![spec_clean_file(pieces.last())]
        } else {
            Seq::empty()
        }
    }
}

/// The files a documentation line names: those of a line
/// `// source_files: a.c, b.c`, none for any other line.
pub open spec fn spec_doc_files(doc: Seq<char>) -> Seq<Seq<char>> {
    match spec_strip_prefix(doc, "// source_files: "@) {
        Some(line) => spec_clean_pieces(spec_split(line, ',')),
        None => Seq::empty(),
    }
}

/// The files named by a list of documentation lines, in order.
pub open spec fn spec_docs_files(docs: Seq<Seq<char>>) -> Seq<Seq<char>>
    decreases docs.len(),
{
    if docs.len() == 0 {
        Seq::empty()
    } else {
        spec_docs_files(docs.drop_last()) + spec_doc_files(docs.last())
    }
}

/// The files named by the documentation of the sub-modules among `items`.
pub open spec fn spec_items_files(items: Seq<Item>) -> Seq<Seq<char>>
    decreases items.len(),
{
    if items.len() == 0 {
        Seq::empty()
    } else {
        spec_items_files(items.drop_last()) + match items.last() {
            Item::Mod(m) => spec_docs_files(strings_view(m.docs@)),
            _ => Seq::empty(),
        }
    }
}

/// The C files of a module: each file its sub-modules name, once, in the
/// order first named.
pub open spec fn spec_c_files(module: RustModule) -> Seq<Seq<char>> {
    spec_dedup(spec_items_files(module.items@))
}

/// The header that goes with a C file: `.c` replaced by `.h`.
pub open spec fn spec_header(f: Seq<char>) -> Seq<char> {
    spec_replace(f, ".c"@, ".h"@)
}

pub open spec fn spec_watch_lines(files: Seq<Seq<char>>) -> Seq<char>
    decreases files.len(),
{
    if files.len() == 0 {
        Seq::empty()
    } else {
        spec_watch_lines(files.drop_last()) + "    println!(\"cargo:rerun-if-changed=c_src/"@
            + files.last() + "\");\n"@ + "    println!(\"cargo:rerun-if-changed=include/"@
            + spec_header(files.last()) + "\");\n"@
    }
}

pub open spec fn spec_file_lines(files: Seq<Seq<char>>) -> Seq<char>
    decreases files.len(),
{
    if files.len() == 0 {
        Seq::empty()
    } else {
        spec_file_lines(files.drop_last()) + "        .file(\"c_src/"@ + files.last() + "\")\n"@
    }
}

pub open spec fn spec_header_lines(files: Seq<Seq<char>>) -> Seq<char>
    decreases files.len(),
{
    if files.len() == 0 {
        Seq::empty()
    } else {
        spec_header_lines(files.drop_last()) + "        .header(\"include/"@ + spec_header(
            files.last(),
        ) + "\")\n"@
    }
}

pub open spec fn build_cc_start() -> Seq<char> {
    "\n    // 编译C代码\n    cc::Build::new()\n"@
}

pub open spec fn build_cc_end() -> Seq<char> {
    "        .include(\"include\")\n        .flag_if_supported(\"/std:c11\")\n        .flag_if_supported(\"/TC\")\n        .compile(\"c_lib\");\n\n    // 生成Rust绑定\n    bindgen::Builder::default()\n"@
}

pub open spec fn build_bindgen_end() -> Seq<char> {
    "        .parse_callbacks(Box::new(bindgen::CargoCallbacks))\n        .generate()\n        .expect(\"生成绑定失败\")\n        .write_to_file(\n            std::path::Path::new(&std::env::var(\"OUT_DIR\").unwrap())\n                .join(\"aadl_c_bindings.rs\")\n        )\n        .expect(\"写入绑定文件失败\");\n"@
}

pub open spec fn build_no_c() -> Seq<char> {
    "    // 没有检测到C源文件，跳过C编译\n"@
}

/// The text of `build.rs` for the C files `files`.
pub open spec fn spec_build_rs_text(files: Seq<Seq<char>>) -> Seq<char> {
    "fn main() {\n"@ + spec_watch_lines(files) + (if files.len() > 0 {
        build_cc_start() + spec_file_lines(files) + build_cc_end() + spec_header_lines(files)
            + build_bindgen_end()
    } else {
        build_no_c()
    }) + "}\n"@
}

/// Inserts the files that one documentation line names.
fn collect_doc_files(doc_line: &String, c_files: &mut Vec<String>)
    ensures
        strings_view(final(c_files)@) == spec_insert_all(
            strings_view(old(c_files)@),
            spec_doc_files(doc_line@),
        ),
{
    match strip_prefix_owned(doc_line.as_str(), "// source_files: ") {
        Some(line) => {
            let pieces = split_char(line.as_str(), ',');
            let ghost pv = strings_view(pieces@);
            let mut k: usize = 0;
            while k < pieces.len()
                invariant
                    k <= pieces@.len(),
                    pv == strings_view(pieces@),
                    strings_view(c_files@) == spec_insert_all(
                        strings_view(old(c_files)@),
                        spec_clean_pieces(pv.take(k as int)),
                    ),
                decreases pieces@.len() - k,
            {
                let t1 = trim_owned(pieces[k].as_str());
                let t2 = trim_matches_owned(t1.as_str(), '"');
                let file = trim_matches_owned(t2.as_str(), '\'');
                proof {
                    assert(pv.take(k + 1).drop_last() =~= pv.take(k as int));
                    assert(pv.take(k + 1).last() == pieces@[k as int]@);
                }
                if file.unicode_len() > 0 {
                    insert_unique(c_files, &file);
                    proof {
                        assert(spec_clean_pieces(pv.take(k + 1)) =~= spec_clean_pieces(
                            pv.take(k as int),
                        ).push(file@));
                        lemma_insert_all_push(
                            strings_view(old(c_files)@),
                            spec_clean_pieces(pv.take(k as int)),
                            file@,
                        );
                    }
                } else {
                    assert(spec_clean_pieces(pv.take(k + 1)) =~= spec_clean_pieces(pv.take(k as int)));
                }
                k = k + 1;
            }
            assert(pv.take(pieces@.len() as int) =~= pv);
        },
        None => {},
    }
}

/// The C files named by the documentation of the sub-modules of `module`.
fn collect_c_files(module: &RustModule) -> (res: Vec<String>)
    ensures
        strings_view(res@) == spec_c_files(*module),
{
    let mut c_files: Vec<String> = Vec::new();
    let mut i: usize = 0;
    assert(strings_view(c_files@) =~= Seq::<Seq<char>>::empty());
    while i < module.items.len()
        invariant
            i <= module.items@.len(),
            strings_view(c_files@) == spec_dedup(spec_items_files(module.items@.take(i as int))),
        decreases module.items@.len() - i,
    {
        proof {
            assert(module.items@.take(i + 1).drop_last() =~= module.items@.take(i as int));
        }
        let ghost before = spec_items_files(module.items@.take(i as int));
        match &module.items[i] {
            Item::Mod(submodule) => {
                let docs = &submodule.docs;
                let ghost dv = strings_view(docs@);
                let mut j: usize = 0;
                while j < docs.len()
                    invariant
                        j <= docs@.len(),
                        dv == strings_view(docs@),
                        strings_view(c_files@) == spec_dedup(before + spec_docs_files(dv.take(j as int))),
                    decreases docs@.len() - j,
                {
                    collect_doc_files(&docs[j], &mut c_files);
                    proof {
                        assert(dv.take(j + 1).drop_last() =~= dv.take(j as int));
                        assert(dv.take(j + 1).last() == docs@[j as int]@);
                        crate::text::lemma_insert_all_concat(
                            Seq::empty(),
                            before + spec_docs_files(dv.take(j as int)),
                            spec_doc_files(docs@[j as int]@),
                        );
                        assert(before + spec_docs_files(dv.take(j + 1)) =~= before
                            + spec_docs_files(dv.take(j as int)) + spec_doc_files(docs@[j as int]@));
                    }
                    j = j + 1;
                }
                assert(dv.take(docs@.len() as int) =~= dv);
            },
            _ => {
                assert(before + Seq::<Seq<char>>::empty() =~= before);
            },
        }
        i = i + 1;
    }
    assert(module.items@.take(module.items@.len() as int) =~= module.items@);
    c_files
}

/// The text of the `build.rs` of a generated project: it watches and
/// compiles each C file that the sub-modules' `// source_files:` lines name,
/// and generates bindings from the matching headers.  A module without C
/// files gets a `build.rs` that compiles nothing.
pub fn generate_build_rs(module: &RustModule) -> (res: String)
    ensures
        res@ == spec_build_rs_text(spec_c_files(*module)),
{
    let c_files = collect_c_files(module);
    let ghost files = strings_view(c_files@);
    let mut build_rs = String::new();
    build_rs.append("fn main() {\n");
    let mut i: usize = 0;
    while i < c_files.len()
        invariant
            i <= c_files@.len(),
            files == strings_view(c_files@),
            build_rs@ == "fn main() {\n"@ + spec_watch_lines(files.take(i as int)),
        decreases c_files@.len() - i,
    {
        let file = c_files[i].as_str();
        proof {
            reveal_strlit(".c");
        }
        let header = replace_owned(file, ".c", ".h");
        build_rs.append("    println!(\"cargo:rerun-if-changed=c_src/");
        build_rs.append(file);
        build_rs.append("\");\n");
        build_rs.append("    println!(\"cargo:rerun-if-changed=include/");
        build_rs.append(header.as_str());
        build_rs.append("\");\n");
        proof {
            reveal_strlit(".c");
            assert(files.take(i + 1).drop_last() =~= files.take(i as int));
            assert(files.take(i + 1).last() == file@);
            assert(build_rs@ =~= "fn main() {\n"@ + spec_watch_lines(files.take(i + 1)));
        }
        i = i + 1;
    }
    assert(files.take(c_files@.len() as int) =~= files);
    let ghost head = build_rs@;
    if c_files.len() > 0 {
        build_rs.append("\n    // 编译C代码\n    cc::Build::new()\n");
        let ghost mid = build_rs@;
        let mut k: usize = 0;
        while k < c_files.len()
            invariant
                k <= c_files@.len(),
                files == strings_view(c_files@),
                build_rs@ == mid + spec_file_lines(files.take(k as int)),
            decreases c_files@.len() - k,
        {
            build_rs.append("        .file(\"c_src/");
            build_rs.append(c_files[k].as_str());
            build_rs.append("\")\n");
            proof {
                assert(files.take(k + 1).drop_last() =~= files.take(k as int));
                assert(files.take(k + 1).last() == c_files@[k as int]@);
                assert(build_rs@ =~= mid + spec_file_lines(files.take(k + 1)));
            }
            k = k + 1;
        }
        assert(files.take(c_files@.len() as int) =~= files);
        build_rs.append(
            "        .include(\"include\")\n        .flag_if_supported(\"/std:c11\")\n        .flag_if_supported(\"/TC\")\n        .compile(\"c_lib\");\n\n    // 生成Rust绑定\n    bindgen::Builder::default()\n",
        );
        let ghost mid2 = build_rs@;
        let mut h: usize = 0;
        while h < c_files.len()
            invariant
                h <= c_files@.len(),
                files == strings_view(c_files@),
                build_rs@ == mid2 + spec_header_lines(files.take(h as int)),
            decreases c_files@.len() - h,
        {
            proof {
                reveal_strlit(".c");
            }
            let header = replace_owned(c_files[h].as_str(), ".c", ".h");
            build_rs.append("        .header(\"include/");
            build_rs.append(header.as_str());
            build_rs.append("\")\n");
            proof {
                reveal_strlit(".c");
                assert(files.take(h + 1).drop_last() =~= files.take(h as int));
                assert(files.take(h + 1).last() == c_files@[h as int]@);
                assert(build_rs@ =~= mid2 + spec_header_lines(files.take(h + 1)));
            }
            h = h + 1;
        }
        assert(files.take(c_files@.len() as int) =~= files);
        build_rs.append(
            "        .parse_callbacks(Box::new(bindgen::CargoCallbacks))\n        .generate()\n        .expect(\"生成绑定失败\")\n        .write_to_file(\n            std::path::Path::new(&std::env::var(\"OUT_DIR\").unwrap())\n                .join(\"aadl_c_bindings.rs\")\n        )\n        .expect(\"写入绑定文件失败\");\n",
        );
    } else {
        build_rs.append("    // 没有检测到C源文件，跳过C编译\n");
    }
    build_rs.append("}\n");
    assert(build_rs@ =~= spec_build_rs_text(files));
    build_rs
}

// ---------------------------------------------------------------------------
// Reading back the source-files line
// ---------------------------------------------------------------------------

/// A file name that a `source_files` line carries unchanged: not empty,
/// without `,`, and without white space or quotes at either end.
pub open spec fn plain_file_name(f: Seq<char>) -> bool {
    &&& f.len() > 0
    &&& !f.contains(',')
    &&& !is_white_space(f[0]) && !is_white_space(f.last())
    &&& f[0] != '"' && f.last() != '"'
    &&& f[0] != '\'' && f.last() != '\''
}

/// The pieces that splitting `seq_join(files, ", ")` at `,` gives: the
/// first file, then each further file after one space.
pub open spec fn joined_pieces(files: Seq<Seq<char>>) -> Seq<Seq<char>> {
    Seq::new(files.len(), |i: int| if i == 0 { files[0] } else { seq![' '] + files[i] })
}

proof fn lemma_split_no_sep(s: Seq<char>, t: Seq<char>, c: char)
    requires
        !t.contains(c),
    ensures
        spec_split(s + t, c) == spec_split(s, c).update(
            spec_split(s, c).len() - 1,
            spec_split(s, c).last() + t,
        ),
        spec_split(s + t, c).len() == spec_split(s, c).len(),
    decreases t.len(),
{
    lemma_split_nonempty(s, c);
    if t.len() == 0 {
        assert(s + t =~= s);
        assert(spec_split(s, c).last() + t =~= spec_split(s, c).last());
        assert(spec_split(s, c).update(spec_split(s, c).len() - 1, spec_split(s, c).last()) =~= spec_split(s, c));
    } else {
        let t0 = t.drop_last();
        assert(!t0.contains(c)) by {
            if t0.contains(c) {
                let k = choose|k: int| 0 <= k < t0.len() && t0[k] == c;
                assert(t[k] == c);
            }
        }
        assert(t[t.len() - 1] != c);
        lemma_split_no_sep(s, t0, c);
        assert((s + t).drop_last() =~= s + t0);
        let p = spec_split(s, c);
        let q = spec_split(s + t0, c);
        assert(spec_split(s + t, c) == q.update(q.len() - 1, q.last().push(t.last())));
        assert(q.last() == p.last() + t0);
        assert(q.len() == p.len());
        assert(q.last().push(t.last()) =~= p.last() + t);
        assert(q.update(q.len() - 1, p.last() + t) =~= p.update(p.len() - 1, p.last() + t));
        assert(spec_split(s + t, c) =~= p.update(p.len() - 1, p.last() + t));
    }
}

proof fn lemma_split_nonempty(s: Seq<char>, c: char)
    ensures
        spec_split(s, c).len() >= 1,
    decreases s.len(),
{
    if s.len() > 0 {
        lemma_split_nonempty(s.drop_last(), c);
    }
}

proof fn lemma_split_joined(files: Seq<Seq<char>>)
    requires
        files.len() > 0,
        forall|i: int| 0 <= i < files.len() ==> !(#[trigger] files[i]).contains(','),
    ensures
        spec_split(seq_join(files, ", "@), ',') == joined_pieces(files),
    decreases files.len(),
{
    reveal_strlit(", ");
    if files.len() == 1 {
        lemma_split_no_sep(Seq::empty(), files[0], ',');
        assert(Seq::<char>::empty() + files[0] =~= files[0]);
        assert(spec_split(Seq::<char>::empty(), ',') =~= seq![Seq::<char>::empty()]);
        assert(Seq::<char>::empty() + files[0] =~= files[0]);
        assert(spec_split(files[0], ',') =~= joined_pieces(files));
    } else {
        let init = files.drop_last();
        assert forall|i: int| 0 <= i < init.len() implies !(#[trigger] init[i]).contains(',') by {
            assert(init[i] == files[i]);
        }
        lemma_split_joined(init);
        let j = seq_join(init, ", "@);
        let last = files.last();
        assert(!files[files.len() - 1].contains(','));
        let tail = seq![' '] + last;
        assert(!tail.contains(',')) by {
            if tail.contains(',') {
                let k = choose|k: int| 0 <= k < tail.len() && tail[k] == ',';
                assert(last[k - 1] == ',');
            }
        }
        let jc = j.push(',');
        assert(seq_join(files, ", "@) =~= jc + tail);
        assert(jc.drop_last() =~= j);
        lemma_split_nonempty(j, ',');
        assert(spec_split(jc, ',') == spec_split(j, ',').push(Seq::empty()));
        lemma_split_no_sep(jc, tail, ',');
        let p = spec_split(jc, ',');
        assert(Seq::<char>::empty() + tail =~= tail);
        assert(spec_split(jc + tail, ',') =~= joined_pieces(files));
    }
}

proof fn lemma_trim_keeps(f: Seq<char>, strip: spec_fn(char) -> bool)
    requires
        f.len() > 0,
        !strip(f[0]),
        !strip(f.last()),
    ensures
        spec_trim_by(f, strip) == f,
{
}

proof fn lemma_clean_plain(f: Seq<char>)
    requires
        plain_file_name(f),
    ensures
        spec_clean_file(f) == f,
        spec_clean_file(seq![' '] + f) == f,
{
    lemma_trim_keeps(f, |c: char| is_white_space(c));
    lemma_trim_keeps(f, eq_char('"'));
    lemma_trim_keeps(f, eq_char('\''));
    let g = seq![' '] + f;
    assert(g.drop_first() =~= f);
    assert(is_white_space(g[0]));
    assert(spec_trim(g) == spec_trim_by(g.drop_first(), |c: char| is_white_space(c)));
}

proof fn lemma_clean_joined(files: Seq<Seq<char>>)
    requires
        forall|i: int| 0 <= i < files.len() ==> plain_file_name(#[trigger] files[i]),
    ensures
        spec_clean_pieces(joined_pieces(files)) == files,
    decreases files.len(),
{
    if files.len() > 0 {
        let init = files.drop_last();
        assert forall|i: int| 0 <= i < init.len() implies plain_file_name(#[trigger] init[i]) by {
            assert(init[i] == files[i]);
        }
        lemma_clean_joined(init);
        assert(joined_pieces(files).drop_last() =~= joined_pieces(init));
        lemma_clean_plain(files.last());
        assert(plain_file_name(files[files.len() - 1]));
        assert(spec_clean_file(joined_pieces(files).last()) == files.last());
        assert(spec_clean_pieces(joined_pieces(files)) =~= files);
    }
}

/// A law of the build script: the `// source_files:` line that a C wrapper
/// module carries names, read back, exactly the files it was written from,
/// where each is a plain file name.
pub proof fn lemma_source_files_line_read_back(files: Seq<Seq<char>>)
    requires
        files.len() > 0,
        forall|i: int| 0 <= i < files.len() ==> plain_file_name(#[trigger] files[i]),
    ensures
        spec_doc_files("// source_files: "@ + seq_join(files, ", "@)) == files,
{
    reveal_strlit("// source_files: ");
    let p = "// source_files: "@;
    let line = p + seq_join(files, ", "@);
    assert(line.take(p.len() as int) =~= p);
    assert(line.skip(p.len() as int) =~= seq_join(files, ", "@));
    assert forall|i: int| 0 <= i < files.len() implies !(#[trigger] files[i]).contains(',') by {
        assert(plain_file_name(files[i]));
    }
    lemma_split_joined(files);
    lemma_clean_joined(files);
}

/// The line of `build.rs` that watches the C file `f`.
pub open spec fn watch_line(f: Seq<char>) -> Seq<char> {
    "    println!(\"cargo:rerun-if-changed=c_src/"@ + f + "\");\n"@
}

/// The line of `build.rs` that compiles the C file `f`.
pub open spec fn file_line(f: Seq<char>) -> Seq<char> {
    "        .file(\"c_src/"@ + f + "\")\n"@
}

proof fn lemma_contains_extend(a: Seq<char>, b: Seq<char>, c: Seq<char>, sub: Seq<char>)
    requires
        spec_contains(b, sub),
    ensures
        spec_contains(a + b + c, sub),
{
    let i = choose|i: int| 0 <= i && i + sub.len() <= b.len() && #[trigger] b.subrange(i, i + sub.len()) == sub;
    assert((a + b + c).subrange(a.len() + i, a.len() + i + sub.len()) =~= b.subrange(i, i + sub.len()));
}

proof fn lemma_contains_self(sub: Seq<char>)
    ensures
        spec_contains(sub, sub),
{
    assert(sub.subrange(0int, 0int + sub.len()) =~= sub);
}

proof fn lemma_watch_contains(files: Seq<Seq<char>>, f: Seq<char>)
    requires
        files.contains(f),
    ensures
        spec_contains(spec_watch_lines(files), watch_line(f)),
    decreases files.len(),
{
    let init = files.drop_last();
    let rest = "    println!(\"cargo:rerun-if-changed=include/"@ + spec_header(files.last()) + "\");\n"@;
    assert(spec_watch_lines(files) =~= spec_watch_lines(init) + watch_line(files.last()) + rest);
    if files.last() == f {
        lemma_contains_self(watch_line(f));
        lemma_contains_extend(spec_watch_lines(init), watch_line(f), rest, watch_line(f));
    } else {
        let k = choose|k: int| 0 <= k < files.len() && files[k] == f;
        assert(init[k] == f);
        lemma_watch_contains(init, f);
        lemma_contains_extend(Seq::empty(), spec_watch_lines(init), watch_line(files.last()) + rest, watch_line(f));
        assert(Seq::<char>::empty() + spec_watch_lines(init) + (watch_line(files.last()) + rest) =~= spec_watch_lines(files));
    }
}

proof fn lemma_file_lines_contains(files: Seq<Seq<char>>, f: Seq<char>)
    requires
        files.contains(f),
    ensures
        spec_contains(spec_file_lines(files), file_line(f)),
    decreases files.len(),
{
    let init = files.drop_last();
    assert(spec_file_lines(files) =~= spec_file_lines(init) + file_line(files.last()));
    if files.last() == f {
        lemma_contains_self(file_line(f));
        lemma_contains_extend(spec_file_lines(init), file_line(f), Seq::empty(), file_line(f));
        assert(spec_file_lines(init) + file_line(f) + Seq::<char>::empty() =~= spec_file_lines(files));
    } else {
        let k = choose|k: int| 0 <= k < files.len() && files[k] == f;
        assert(init[k] == f);
        lemma_file_lines_contains(init, f);
        lemma_contains_extend(Seq::empty(), spec_file_lines(init), file_line(files.last()), file_line(f));
        assert(Seq::<char>::empty() + spec_file_lines(init) + file_line(files.last()) =~= spec_file_lines(files));
    }
}

proof fn lemma_items_files_contains(items: Seq<Item>, i: int, f: Seq<char>)
    requires
        0 <= i < items.len(),
        items[i] matches Item::Mod(m) && spec_docs_files(strings_view(m.docs@)).contains(f),
    ensures
        spec_items_files(items).contains(f),
    decreases items.len(),
{
    let init = items.drop_last();
    let last_files = match items.last() {
        Item::Mod(m) => spec_docs_files(strings_view(m.docs@)),
        _ => Seq::empty(),
    };
    assert(spec_items_files(items) == spec_items_files(init) + last_files);
    if i == items.len() - 1 {
        let k = choose|k: int| 0 <= k < last_files.len() && last_files[k] == f;
        assert(spec_items_files(items)[spec_items_files(init).len() + k] == f);
    } else {
        assert(init[i] == items[i]);
        lemma_items_files_contains(init, i, f);
        let k = choose|k: int| 0 <= k < spec_items_files(init).len() && spec_items_files(init)[k] == f;
        assert(spec_items_files(items)[k] == f);
    }
}

proof fn lemma_module_docs_files(comp: ComponentType, c: Seq<char>)
    requires
        spec_source_files(comp).len() > 0,
        forall|i: int| 0 <= i < spec_source_files(comp).len() ==> plain_file_name(#[trigger] spec_source_files(comp)[i]),
    ensures
        spec_docs_files(spec_module_docs(comp, c)) == spec_source_files(comp),
{
    reveal_strlit("// Auto-generated from AADL subprogram: ");
    reveal_strlit("// C binding to: ");
    reveal_strlit("// source_files: ");
    let files = spec_source_files(comp);
    let docs = spec_module_docs(comp, c);
    let l0 = "// Auto-generated from AADL subprogram: "@ + comp.identifier@;
    let l1 = "// C binding to: "@ + c;
    let l2 = "// source_files: "@ + seq_join(files, ", "@);
    assert(docs =~= seq![l0, l1, l2]);
    assert(l0.take(17)[3] != "// source_files: "@[3]);
    assert(l1.take(17)[3] != "// source_files: "@[3]);
    assert(spec_doc_files(l0) =~= Seq::empty());
    assert(spec_doc_files(l1) =~= Seq::empty());
    lemma_source_files_line_read_back(files);
    assert(docs.drop_last() =~= seq![l0, l1]);
    assert(seq![l0, l1].drop_last() =~= seq![l0]);
    assert(seq![l0].drop_last() =~= Seq::<Seq<char>>::empty());
    let d0 = seq![l0];
    let d1 = seq![l0, l1];
    assert(d0.last() == l0);
    assert(d1.last() == l1);
    assert(docs.last() == l2);
    assert(spec_docs_files(Seq::<Seq<char>>::empty()) == Seq::<Seq<char>>::empty());
    assert(spec_docs_files(d0) == spec_docs_files(d0.drop_last()) + spec_doc_files(l0));
    assert(spec_docs_files(d0) =~= Seq::empty());
    assert(spec_docs_files(d1) == spec_docs_files(d1.drop_last()) + spec_doc_files(l1));
    assert(spec_docs_files(d1) =~= Seq::empty());
    assert(spec_docs_files(docs) == spec_docs_files(docs.drop_last()) + spec_doc_files(l2));
    assert(spec_docs_files(docs) =~= files);
}

/// A law of the build script: where a module holds a C wrapper sub-module
/// whose comments are those the wrapper writes, with plain file names, the
/// `build.rs` of the module watches and compiles every source file of the
/// wrapped subprogram.
pub proof fn lemma_wrapper_sources_built(module: RustModule, i: int, comp: ComponentType, c: Seq<char>)
    requires
        0 <= i < module.items@.len(),
        module.items@[i] matches Item::Mod(m) && strings_view(m.docs@) == spec_module_docs(comp, c),
        spec_source_files(comp).len() > 0,
        forall|j: int| 0 <= j < spec_source_files(comp).len() ==> plain_file_name(#[trigger] spec_source_files(comp)[j]),
    ensures
        forall|j: int| 0 <= j < spec_source_files(comp).len() ==> {
            let f = #[trigger] spec_source_files(comp)[j];
            &&& spec_c_files(module).contains(f)
            &&& spec_contains(spec_build_rs_text(spec_c_files(module)), watch_line(f))
            &&& spec_contains(spec_build_rs_text(spec_c_files(module)), file_line(f))
        },
{
    let files = spec_source_files(comp);
    lemma_module_docs_files(comp, c);
    let all = spec_items_files(module.items@);
    lemma_insert_all_contents(Seq::empty(), all);
    let cf = spec_c_files(module);
    assert forall|j: int| 0 <= j < files.len() implies {
        let f = #[trigger] files[j];
        &&& cf.contains(f)
        &&& spec_contains(spec_build_rs_text(cf), watch_line(f))
        &&& spec_contains(spec_build_rs_text(cf), file_line(f))
    } by {
        let f = files[j];
        assert(files.contains(f));
        lemma_items_files_contains(module.items@, i, f);
        assert(cf.contains(f));
        assert(cf.len() > 0);
        lemma_watch_contains(cf, f);
        let tail = (build_cc_start() + spec_file_lines(cf) + build_cc_end() + spec_header_lines(cf) + build_bindgen_end())
            + "}\n"@;
        assert(spec_build_rs_text(cf) =~= "fn main() {\n"@ + spec_watch_lines(cf) + tail);
        lemma_contains_extend("fn main() {\n"@, spec_watch_lines(cf), tail, watch_line(f));
        lemma_file_lines_contains(cf, f);
        let pre = "fn main() {\n"@ + spec_watch_lines(cf) + build_cc_start();
        let post = build_cc_end() + spec_header_lines(cf) + build_bindgen_end() + "}\n"@;
        assert(spec_build_rs_text(cf) =~= pre + spec_file_lines(cf) + post);
        lemma_contains_extend(pre, spec_file_lines(cf), post, file_line(f));
    }
}

} // verus!
