use std::cell::RefCell;
use std::io;
use std::path::{Path, PathBuf};
use std::rc::Rc;

use rainicorn::parse_describe::is_bug_level;
use rainicorn::parse_describe::parse_analysis;
use rainicorn::parse_describe::parse_crate_with_messages;
use rainicorn::parse_describe::write_parse_analysis_contents;
use rainicorn::parse_describe::DummyFileLoader;
use rainicorn::source_model::Loc;
use rainicorn::source_model::SourceRange;
use rainicorn::syntax::AssocItem;
use rainicorn::syntax::AssocItemKind;
use rainicorn::syntax::Diagnostic;
use rainicorn::syntax::FieldDef;
use rainicorn::syntax::FnDecl;
use rainicorn::syntax::FnRetTy;
use rainicorn::syntax::ForeignItem;
use rainicorn::syntax::ForeignItemKind;
use rainicorn::syntax::Item;
use rainicorn::syntax::ItemKind;
use rainicorn::syntax::Level;
use rainicorn::syntax::Param;
use rainicorn::syntax::UseTree;
use rainicorn::syntax::UseTreeKind;
use rainicorn::syntax::Variant;
use rainicorn::syntax::VariantData;
use rainicorn::token_writer::TokenWriter;
use syntex_syntax::ast;
use syntex_syntax::codemap::CodeMap;
use syntex_syntax::codemap::FileLoader;
use syntex_syntax::codemap::FilePathMapping;
use syntex_syntax::codemap::Span;
use syntex_syntax::errors;
use syntex_syntax::errors::emitter::Emitter;
use syntex_syntax::errors::DiagnosticBuilder;
use syntex_syntax::errors::Handler;
use syntex_syntax::parse;
use syntex_syntax::parse::ParseSess;
use syntex_syntax::print::pprust;
use syntex_syntax::ptr::P;

struct NoDiskLoader(DummyFileLoader);

impl FileLoader for NoDiskLoader {
    fn file_exists(&self, path: &Path) -> bool {
        self.0.file_exists(path.file_name().and_then(|name| name.to_str()))
    }

    fn abs_path(&self, _path: &Path) -> Option<PathBuf> {
        None
    }

    fn read_file(&self, path: &Path) -> io::Result<String> {
        Ok(self.0.read_file(&path.to_string_lossy()))
    }
}

fn range(codemap: &CodeMap, span: Span) -> SourceRange {
    let start = codemap.lookup_char_pos(span.lo);
    let end = codemap.lookup_char_pos(span.hi);
    assert!(start.line >= 1 && end.line >= 1);
    SourceRange::from_loc(Loc { line: start.line, col: start.col.0 }, Loc { line: end.line, col: end.col.0 })
}

fn snippet(codemap: &CodeMap, span: Span) -> Option<String> {
    codemap.span_to_snippet(span).ok()
}

fn name(ident: ast::Ident) -> String {
    ident.name.as_str().to_string()
}

fn level(level: errors::Level) -> Level {
    match level {
        errors::Level::Bug => Level::Bug,
        errors::Level::Fatal => Level::Fatal,
        errors::Level::PhaseFatal => Level::PhaseFatal,
        errors::Level::Error => Level::Error { lint: false },
        errors::Level::Warning => Level::Warning,
        errors::Level::Note => Level::Note,
        errors::Level::Help => Level::Help,
        errors::Level::Cancelled => Level::Cancelled,
    }
}

struct Collector {
    codemap: Rc<CodeMap>,
    diagnostics: Rc<RefCell<Vec<Diagnostic>>>,
}

impl Emitter for Collector {
    fn emit(&mut self, db: &DiagnosticBuilder) {
        let diagnostic = Diagnostic {
            level: level(db.level),
            message: db.message(),
            primary_ranges: db.span.primary_spans().iter().map(|span| range(&self.codemap, *span)).collect(),
        };
        self.diagnostics.borrow_mut().push(diagnostic);
    }
}

fn fn_decl(codemap: &CodeMap, decl: &ast::FnDecl) -> FnDecl {
    FnDecl {
        inputs: decl
            .inputs
            .iter()
            .map(|arg| Param { ty_snippet: snippet(codemap, arg.ty.span), pat_snippet: snippet(codemap, arg.pat.span) })
            .collect(),
        output: match decl.output {
            ast::FunctionRetTy::Default(_) => FnRetTy::Default,
            ast::FunctionRetTy::Ty(ref ty) => FnRetTy::Ty(snippet(codemap, ty.span)),
        },
    }
}

fn block_items(codemap: &CodeMap, block: &ast::Block) -> Vec<Item> {
    let mut found = vec![];
    for stmt in &block.stmts {
        if let ast::StmtKind::Item(ref inner) = stmt.node {
            found.push(item(codemap, inner));
        }
    }
    found
}

fn use_path_text(path: &ast::Path) -> String {
    if path.is_global() {
        pprust::path_to_string(&ast::Path { span: path.span, segments: path.segments[1..].to_vec() })
    } else {
        pprust::path_to_string(path)
    }
}

fn path_tree(codemap: &CodeMap, path: &ast::Path, kind: UseTreeKind, span: Span) -> UseTree {
    UseTree {
        prefix: use_path_text(path),
        last_segment: path.segments.last().map(|segment| name(segment.identifier)),
        kind: kind,
        range: range(codemap, span),
    }
}

fn use_tree(codemap: &CodeMap, view_path: &ast::ViewPath) -> UseTree {
    match view_path.node {
        ast::ViewPath_::ViewPathSimple(ident, ref path) => {
            path_tree(codemap, path, UseTreeKind::Simple(Some(name(ident))), view_path.span)
        }
        ast::ViewPath_::ViewPathGlob(ref path) => path_tree(codemap, path, UseTreeKind::Glob, view_path.span),
        ast::ViewPath_::ViewPathList(ref path, ref list) => {
            let trees = list
                .iter()
                .map(|entry| UseTree {
                    prefix: name(entry.node.name),
                    last_segment: Some(name(entry.node.name)),
                    kind: UseTreeKind::Simple(entry.node.rename.map(name)),
                    range: range(codemap, entry.span),
                })
                .collect();
            path_tree(codemap, path, UseTreeKind::Nested(trees), view_path.span)
        }
    }
}

fn fields(codemap: &CodeMap, fields: &[ast::StructField]) -> Vec<FieldDef> {
    fields.iter().map(|field| FieldDef { name: field.ident.map(name), range: range(codemap, field.span) }).collect()
}

fn variant_data(codemap: &CodeMap, data: &ast::VariantData) -> VariantData {
    match *data {
        ast::VariantData::Struct(ref list, _) => VariantData::Struct(fields(codemap, list)),
        ast::VariantData::Tuple(ref list, _) => VariantData::Tuple(fields(codemap, list)),
        ast::VariantData::Unit(_) => VariantData::Unit,
    }
}

fn trait_item(codemap: &CodeMap, inner: &ast::TraitItem) -> AssocItem {
    let kind = match inner.node {
        ast::TraitItemKind::Const(ref ty, _) => AssocItemKind::Const(snippet(codemap, ty.span)),
        ast::TraitItemKind::Method(ref sig, ref body) => {
            let found = match *body {
                Some(ref block) => block_items(codemap, block),
                None => vec![],
            };
            AssocItemKind::Fn(fn_decl(codemap, &sig.decl), found)
        }
        ast::TraitItemKind::Type(_, _) => AssocItemKind::Type,
        ast::TraitItemKind::Macro(_) => AssocItemKind::MacCall,
    };
    AssocItem { name: name(inner.ident), range: range(codemap, inner.span), kind: kind }
}

fn impl_item(codemap: &CodeMap, inner: &ast::ImplItem) -> AssocItem {
    let kind = match inner.node {
        ast::ImplItemKind::Const(ref ty, _) => AssocItemKind::Const(snippet(codemap, ty.span)),
        ast::ImplItemKind::Method(ref sig, ref body) => AssocItemKind::Fn(fn_decl(codemap, &sig.decl), block_items(codemap, body)),
        ast::ImplItemKind::Type(_) => AssocItemKind::Type,
        ast::ImplItemKind::Macro(_) => AssocItemKind::MacCall,
    };
    AssocItem { name: name(inner.ident), range: range(codemap, inner.span), kind: kind }
}

fn foreign_item(codemap: &CodeMap, inner: &ast::ForeignItem) -> ForeignItem {
    let kind = match inner.node {
        ast::ForeignItemKind::Fn(ref decl, _) => ForeignItemKind::Fn(fn_decl(codemap, decl)),
        ast::ForeignItemKind::Static(ref ty, _) => ForeignItemKind::Static(snippet(codemap, ty.span)),
    };
    ForeignItem { name: name(inner.ident), range: range(codemap, inner.span), kind: kind }
}

fn items(codemap: &CodeMap, list: &[P<ast::Item>]) -> Vec<Item> {
    list.iter().map(|inner| item(codemap, inner)).collect()
}

fn item(codemap: &CodeMap, inner: &ast::Item) -> Item {
    let kind = match inner.node {
        ast::ItemKind::ExternCrate(_) => ItemKind::ExternCrate,
        ast::ItemKind::Use(ref view_path) => ItemKind::Use(use_tree(codemap, view_path)),
        ast::ItemKind::Static(ref ty, _, _) => ItemKind::Static(snippet(codemap, ty.span)),
        ast::ItemKind::Const(ref ty, _) => ItemKind::Const(snippet(codemap, ty.span)),
        ast::ItemKind::Fn(ref decl, _, _, _, _, ref body) => ItemKind::Fn(fn_decl(codemap, decl), block_items(codemap, body)),
        ast::ItemKind::Mod(ref module) => ItemKind::Mod(items(codemap, &module.items)),
        ast::ItemKind::ForeignMod(ref foreign) => {
            ItemKind::ForeignMod(foreign.items.iter().map(|inner| foreign_item(codemap, inner)).collect())
        }
        ast::ItemKind::GlobalAsm(_) => ItemKind::GlobalAsm,
        ast::ItemKind::Ty(_, _) => ItemKind::TyAlias,
        ast::ItemKind::Enum(ref definition, _) => ItemKind::Enum(
            definition.variants.iter().map(|variant| Variant { data: variant_data(codemap, &variant.node.data) }).collect(),
        ),
        ast::ItemKind::Struct(ref data, _) => ItemKind::Struct(variant_data(codemap, data)),
        ast::ItemKind::Union(ref data, _) => ItemKind::Union(variant_data(codemap, data)),
        ast::ItemKind::Trait(_, _, _, ref list) => ItemKind::Trait(list.iter().map(|inner| trait_item(codemap, inner)).collect()),
        ast::ItemKind::DefaultImpl(_, _) => ItemKind::Impl(vec![]),
        ast::ItemKind::Impl(_, _, _, _, _, _, ref list) => {
            ItemKind::Impl(list.iter().map(|inner| impl_item(codemap, inner)).collect())
        }
        ast::ItemKind::Mac(_) => ItemKind::MacCall,
        ast::ItemKind::MacroDef(_) => ItemKind::MacroDef,
    };
    Item { name: name(inner.ident), range: range(codemap, inner.span), kind: kind }
}

fn parse_source(source: &str) -> (Vec<Diagnostic>, Option<Vec<Item>>) {
    let diagnostics = Rc::new(RefCell::new(vec![]));
    let codemap = Rc::new(CodeMap::with_file_loader(Box::new(NoDiskLoader(DummyFileLoader::new())), FilePathMapping::empty()));
    let krate = {
        let emitter = Collector { codemap: codemap.clone(), diagnostics: diagnostics.clone() };
        let handler = Handler::with_emitter(true, false, Box::new(emitter));
        let sess = ParseSess::with_span_handler(handler, codemap.clone());
        let parsed = parse::parse_crate_from_source_str("_file_module_".to_string(), source.to_string(), &sess);
        match parsed {
            Ok(krate) => Some(items(&codemap, &krate.module.items)),
            Err(mut db) => {
                db.emit();
                None
            }
        }
    };
    let diagnostics = diagnostics.borrow_mut().drain(..).collect();
    (diagnostics, krate)
}

fn describe(source: &str) -> String {
    let (diagnostics, krate) = parse_source(source);
    assert!(!diagnostics.iter().any(|diagnostic| is_bug_level(diagnostic.level)));
    parse_analysis(&diagnostics, &krate, String::new()).ok().unwrap()
}

fn test_describe_structure(source: &str, expected: &str) {
    let (diagnostics, krate) = parse_source(source);
    let (messages, elements) = parse_crate_with_messages(&diagnostics, &krate);
    let mut token_writer = TokenWriter { out: String::new() };
    write_parse_analysis_contents(messages, elements, &mut token_writer).ok().unwrap();

    let expected: &str = &(String::from("MESSAGES {\n}") + (if expected.is_empty() { "" } else { "\n" }) + expected);
    assert_eq!(token_writer.out.trim(), expected);
}

#[test]
fn parsed_extern_crate() {
    test_describe_structure("extern crate xx;", r#"ExternCrate { "xx" { 0:0 0:16 } {} "" {} }"#);
    test_describe_structure("pub extern crate my_crate;", r#"ExternCrate { "my_crate" { 0:0 0:26 } {} "" {} }"#);
}

#[test]
fn parsed_const() {
    test_describe_structure("const xx : u32 = 1;", r#"Var { "xx" { 0:0 0:19 } {} "u32" {} }"#);
    test_describe_structure("const xx : T = 1;", r#"Var { "xx" { 0:0 0:17 } {} "T" {} }"#);
}

#[test]
fn parsed_modules() {
    test_describe_structure("mod myMod   ;  ", r#"Mod { "myMod" { 0:0 0:13 } {} "" {} }"#);
    test_describe_structure("mod myMod { }", r#"Mod { "myMod" { 0:0 0:13 } {} "" {} }"#);
    test_describe_structure(
        "mod myMod { static xx : u32 = 2; }",
        "Mod { \"myMod\" { 0:0 0:34 } {} \"\" {}\n  Var { \"xx\" { 0:12 0:32 } {} \"u32\" {} }\n}",
    );
}

#[test]
fn parsed_functions() {
    test_describe_structure("fn xx() { }", r#"Function { "xx" { 0:0 0:11 } {} "()" {} }"#);
    test_describe_structure("fn xx(a : &str) -> u32 { }", r#"Function { "xx" { 0:0 0:26 } {} "(&str) -> u32" {} }"#);
    test_describe_structure(
        "fn xx(blah : Vec<u32>, x : &'v str) -> u32 { }",
        r#"Function { "xx" { 0:0 0:46 } {} "(Vec<u32>, &'v str) -> u32" {} }"#,
    );
    test_describe_structure("fn xx(my_self : &str) -> u32 { }", r#"Function { "xx" { 0:0 0:32 } {} "(&str) -> u32" {} }"#);
    test_describe_structure("fn foo() { my_macro!(asf); }", r#"Function { "foo" { 0:0 0:28 } {} "()" {} }"#);
    test_describe_structure("fn foo() { 123? }", r#"Function { "foo" { 0:0 0:17 } {} "()" {} }"#);
}

#[test]
fn parsed_type_alias() {
    test_describe_structure("type MyType = &u32<asd>;", r#"TypeAlias { "MyType" { 0:0 0:24 } {} "" {} }"#);
}

#[test]
fn parsed_traits() {
    test_describe_structure("trait MyTrait { } ", r#"Trait { "MyTrait" { 0:0 0:17 } {} "" {} }"#);
    test_describe_structure(
        "trait MyTrait : Foo { fn xxx(); } ",
        "Trait { \"MyTrait\" { 0:0 0:33 } {} \"\" {}\n  Function { \"xxx\" { 0:22 0:31 } {} \"()\" {} }\n}",
    );
}

#[test]
fn parsed_uses() {
    test_describe_structure("use blah;", r#"Use { "blah" { 0:4 0:8 } {} "" {} }"#);
    test_describe_structure("use blah as foo;", r#"Use { "blah as foo" { 0:4 0:15 } {} "" {} }"#);
    test_describe_structure("use blah::foo as myfoo;", r#"Use { "blah::foo as myfoo" { 0:4 0:22 } {} "" {} }"#);
    let (diagnostics, krate) = parse_source("use blah::foo::*;");
    let (_, elements) = parse_crate_with_messages(&diagnostics, &krate);
    assert_eq!(elements.len(), 1);
    assert_eq!(elements[0].name, "blah::foo::*");
    assert!(elements[0].children.is_empty());
}

#[test]
fn parsed_grouped_use() {
    let (diagnostics, krate) = parse_source("use blah::foo::{ One as OtherOne, self as Two };");
    assert!(diagnostics.is_empty());
    let (_, elements) = parse_crate_with_messages(&diagnostics, &krate);
    assert_eq!(elements.len(), 1);
    assert_eq!(elements[0].name, "blah::foo::{ One as OtherOne, self as Two, }");
    assert!(elements[0].children.is_empty());
}

#[test]
fn parsed_macros() {
    test_describe_structure("my_macro!(asf); ", "");
    test_describe_structure("macro_rules! foo { (x => $e:expr) => (); }", r#""#);
}

#[test]
fn parsed_empty_source() {
    assert_eq!(describe(""), "RUST_PARSE_DESCRIBE 1.0 {\nMESSAGES {\n}\n\n}");
}

#[test]
fn parsed_broken_source() {
    let (diagnostics, krate) = parse_source(" #blah ");
    assert!(!diagnostics.is_empty());
    let text = parse_analysis(&diagnostics, &krate, String::new()).ok().unwrap();
    assert!(text.starts_with("RUST_PARSE_DESCRIBE 1.0 {\nMESSAGES {\n{ ERROR "));
    assert!(text.ends_with("\n}"));
}
