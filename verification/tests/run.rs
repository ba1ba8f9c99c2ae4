use netlist_db::chain::{child_chain, enter, finish_run, load_file, new_chain, open_file, set_link, Chain, Opened};
use netlist_db::display::{display_inline, display_multiline, display_wrap, OptionDispaly};
use netlist_db::err::{ParseError, ParseErrorInner};
use netlist_db::hier::NodeMap;
use netlist_db::instance::InstanceType;
use netlist_db::netlist::{Files, Parsed, Subckt};
use netlist_db::paths::normal_path;
use netlist_db::report::{Style, Styles};
use netlist_db::source::{file_ast, FileAst};
use netlist_db::span::{FileId, ParsedId, Pos, Span};
use netlist_db::storage::FileStorage;

fn inc(p: &str) -> FileId {
    FileId::Include { path: p.to_string() }
}

fn normal(p: &str) -> String {
    String::from_utf8(normal_path(p.as_bytes())).unwrap()
}

#[test]
fn main() {
    let mut file_storage: FileStorage<Span> = FileStorage::new();
    let file_ctx = String::from("Lorem ipsum \n foobar");
    let parsed_id = file_storage.new_file(inc("dummy.sp"));
    let start = file_ctx.find("foo").unwrap();
    let foo = Span { start, end: start + 3 };
    file_storage.update_ctx(&parsed_id, file_ctx, foo);
    let file = &file_storage.file[parsed_id.0];
    let sp = file_storage.parsed[parsed_id.0].1;
    println!("{}", &file[sp.start..sp.end]);
    assert_eq!(&file[sp.start..sp.end], "foo");
}

#[test]
fn storage_keeps_each_file_once() {
    let mut st: FileStorage<Span> = FileStorage::new();
    let a = st.new_file(inc("a.sp"));
    let b = st.new_file(FileId::Section { path: "a.sp".to_string(), section: "tt".to_string() });
    let a2 = st.new_file(inc("a.sp"));
    assert_eq!(a, a2);
    assert_ne!(a, b);
    assert_eq!(st.existed(&inc("a.sp")), Some(a));
    assert_eq!(st.existed(&inc("b.sp")), None);
    assert_eq!(st.parsed.len(), 2);
    assert_eq!(st.file.len(), 2);
    assert_eq!(st.new_file(inc("b.sp")), ParsedId(2));
    assert_eq!(st.existed(&FileId::Section { path: "a.sp".to_string(), section: "tt".to_string() }), Some(b));
}

#[test]
fn enter_detects_circular_definition() {
    let chain: Chain = new_chain();
    let pos = Pos { start: 3, line_num: 1 };
    let c1 = enter(chain, &inc("top.sp"), None).unwrap();
    let c2 = enter(c1, &inc("a.sp"), Some(pos)).unwrap();
    assert_eq!(c2.len(), 2);
    let e = enter(c2, &inc("top.sp"), Some(pos)).unwrap_err();
    assert_eq!(e.pos, Some(pos));
    match e.err {
        ParseErrorInner::CircularDefinition(c, i) => {
            assert_eq!(i, 0);
            assert_eq!(c.len(), 2);
        }
        _ => panic!("expected a circular definition"),
    }
}

#[test]
fn child_chain_moves_the_last_position() {
    let c: Chain = [(inc("top.sp"), None), (inc("a.sp"), Some(Pos { start: 1, line_num: 1 }))].into_iter().collect();
    let p = Pos { start: 9, line_num: 4 };
    let d = child_chain(&c, p);
    assert_eq!(d.len(), 2);
    assert_eq!(d[0], None);
    assert_eq!(d[1], Some(p));
    assert!(d.get_index(1).unwrap().0.same(&inc("a.sp")));
    assert_eq!(c[1], Some(Pos { start: 1, line_num: 1 }));
}

/// Reads `name` from `fs` the way a parse run does, returning its index and
/// its requests (file name, section).
fn read(
    st: &mut FileStorage<FileAst>, chain: Chain, id: FileId, pos: Option<Pos>, fs: &[(&str, &str)],
) -> Result<(ParsedId, Chain, Vec<(String, Pos)>), ParseError> {
    match open_file(st, chain, &id, pos) {
        Opened::Circular(e) => Err(e),
        Opened::Existed(p) => Ok((p, new_chain(), Vec::new())),
        Opened::Read(c) => {
            let path = id.path().clone();
            let contents = fs.iter().find(|(n, _)| *n == path).map(|(_, t)| t.to_string()).ok_or("no such file".to_string());
            let (p, text, base) = load_file(st, id, contents, pos)?;
            let fa = file_ast(&text, base);
            let reqs = fa.requests.iter().map(|q| (text[q.file.start..q.file.end].to_string(), q.pos)).collect();
            st.update_ctx(&p, text, fa);
            Ok((p, c, reqs))
        }
    }
}

fn run(fs: &[(&str, &str)], top: &str) -> (Parsed, Files) {
    let mut st: FileStorage<FileAst> = FileStorage::new();
    let mut todo = Vec::new();
    let top_res = read(&mut st, new_chain(), inc(top), None, fs);
    let tops = match top_res {
        Ok((p, c, reqs)) => {
            for (k, (name, pos)) in reqs.into_iter().enumerate() {
                todo.push((p, k, c.clone(), name, pos));
            }
            vec![Ok(p)]
        }
        Err(e) => vec![Err((inc(top), e))],
    };
    while let Some((parent, k, chain, name, pos)) = todo.pop() {
        let child = child_chain(&chain, pos);
        let res = read(&mut st, child, inc(&normal(&name)), Some(pos), fs);
        let link = match res {
            Ok((p, c, reqs)) => {
                for (j, (n2, pos2)) in reqs.into_iter().enumerate() {
                    todo.push((p, j, c.clone(), n2, pos2));
                }
                Ok(p)
            }
            Err(e) => Err(e),
        };
        assert!(set_link(&mut st, parent, k, link));
    }
    finish_run(st, tops)
}

#[test]
fn include_is_replaced_by_its_file() {
    let fs = [("top.sp", "R1 a b 1\n.inc 'a.sp'\nR3 e f 3\n"), ("a.sp", "R2 c d 2\n")];
    let (parsed, files) = run(&fs, "top.sp");
    assert_eq!(parsed.top_ids, vec![ParsedId(0)]);
    assert_eq!(parsed.inner.len(), 2);
    let (ast, errs) = files.build(&parsed);
    assert!(errs.is_empty());
    let names: Vec<&str> = ast
        .instance
        .iter()
        .map(|(p, i)| &files.inner[p.0][i.name.start..i.name.end])
        .collect();
    assert_eq!(names, vec!["R1", "R2", "R3"]);
}

#[test]
fn circular_include_is_reported() {
    let fs = [("top.sp", "R1 a b 1\n.inc 'a.sp'\n"), ("a.sp", "R2 c d 2\n.inc 'top.sp'\n")];
    let (parsed, files) = run(&fs, "top.sp");
    let (ast, errs) = files.build(&parsed);
    assert_eq!(ast.instance.len(), 2);
    assert_eq!(errs.len(), 1);
    assert!(matches!(errs[0].1.err, ParseErrorInner::CircularDefinition(_, 0)));
}

#[test]
fn circular_include_spelled_otherwise_is_reported() {
    let fs = [("a/top.sp", "R1 a b 1\n.inc 'a/./x.sp'\n"), ("a/x.sp", "R2 c d 2\n.inc 'a//top.sp/'\n")];
    let (parsed, files) = run(&fs, "a/top.sp");
    assert_eq!(parsed.inner.len(), 2);
    let (ast, errs) = files.build(&parsed);
    assert_eq!(ast.instance.len(), 2);
    assert_eq!(errs.len(), 1);
    assert!(matches!(errs[0].1.err, ParseErrorInner::CircularDefinition(_, 0)));
}

#[test]
fn normal_paths_follow_path_components() {
    assert_eq!(normal("a/./b.sp"), "a/b.sp");
    assert_eq!(normal("a//b.sp/"), "a/b.sp");
    assert_eq!(normal("./x.sp"), "./x.sp");
    assert_eq!(normal("././x.sp"), "./x.sp");
    assert_eq!(normal("/a/./b"), "/a/b");
    assert_eq!(normal("//a"), "/a");
    assert_eq!(normal("a/../b"), "a/../b");
    assert_eq!(normal("."), ".");
    assert_eq!(normal("/"), "/");
    assert_eq!(normal(""), "");
    for p in ["a/./b.sp", "./x.sp", "././x.sp", "/a//b/", "a/../b", ".", "x"] {
        let q = normal(p);
        assert_eq!(std::path::Path::new(&q), std::path::Path::new(p));
        assert_eq!(normal(&q), q);
    }
}

#[test]
fn missing_top_file_gives_only_its_error() {
    let (parsed, files) = run(&[], "top.sp");
    assert_eq!(parsed.top_ids, vec![ParsedId(0)]);
    assert_eq!(files.inner, vec![String::new()]);
    let (_, errs) = files.build(&parsed);
    assert_eq!(errs.len(), 1);
    assert!(matches!(&errs[0].1.err, ParseErrorInner::IO(m) if m == "no such file"));
}

#[test]
fn missing_lib_section() {
    let mut st: FileStorage<FileAst> = FileStorage::new();
    let id = FileId::Section { path: "l.sp".to_string(), section: "ss".to_string() };
    let r = load_file(&mut st, id, Ok(".lib tt\nR1 a b 1\n.endl tt\n".to_string()), None);
    match r {
        Err(ParseError { pos: None, err: ParseErrorInner::NoLibSection { path, section } }) => {
            assert_eq!(path, "l.sp");
            assert_eq!(section, "ss");
        }
        _ => panic!("expected a missing section"),
    }
    assert_eq!(st.parsed.len(), 0);
    let id = FileId::Section { path: "l.sp".to_string(), section: "tt".to_string() };
    let (p, text, base) = load_file(&mut st, id, Ok("* x\n.lib tt\nR1 a b 1\n.endl tt\n".to_string()), None).unwrap();
    assert_eq!(p, ParsedId(0));
    assert_eq!(text, "\nR1 a b 1\n");
    assert_eq!(base, 1);
}

#[test]
fn set_link_only_once() {
    let mut st: FileStorage<FileAst> = FileStorage::new();
    let p = st.new_file(inc("t.sp"));
    let text = ".inc 'a.sp'\n".to_string();
    let fa = file_ast(&text, 0);
    assert_eq!(fa.requests.len(), 1);
    st.update_ctx(&p, text, fa);
    assert!(set_link(&mut st, p, 0, Ok(ParsedId(0))));
    assert!(!set_link(&mut st, p, 0, Ok(ParsedId(0))));
    assert!(!set_link(&mut st, p, 1, Ok(ParsedId(0))));
    assert!(!set_link(&mut st, ParsedId(5), 0, Ok(ParsedId(0))));
}

const HIER: &str = ".subckt INV a y
M1 y a vdd vdd pch
M2 y a gnd gnd nch
.ends
.subckt BUF a y
X1 a m INV
X2 m y INV
.ends
.subckt BAD a
X3 a n NOPE
.ends
";

fn one_file(text: &str) -> (Parsed, Files) {
    let fa = file_ast(text, 0);
    (
        Parsed { top_ids: vec![ParsedId(0)], inner: vec![(inc("h.sp"), fa)] },
        Files { inner: vec![text.to_string()] },
    )
}

fn strings(v: &[Vec<u8>]) -> Vec<String> {
    v.iter().map(|b| String::from_utf8(b.clone()).unwrap()).collect()
}

#[test]
fn append_expands_buf() {
    let (parsed, files) = one_file(HIER);
    let (ast, errs) = files.build(&parsed);
    assert!(errs.is_empty());
    let mut internal_nodes = Vec::new();
    let mut append_subckts = Vec::new();
    let mut path = Vec::new();
    let mut scopes = vec![&ast.subckt];
    Subckt::append(&files, b"BUF", &Vec::new(), &mut path, &mut scopes, &mut internal_nodes, &mut append_subckts, 64)
        .unwrap();
    assert_eq!(strings(&internal_nodes), vec!["m", "X1.vdd", "X1.gnd", "X2.vdd", "X2.gnd"]);
    let names: Vec<&str> =
        append_subckts.iter().map(|s| &files.inner[s.file.0][s.name.start..s.name.end]).collect();
    assert_eq!(names, vec!["BUF", "INV", "INV"]);
    assert!(path.is_empty());
    assert_eq!(scopes.len(), 1);
}

#[test]
fn append_leaf_and_missing_cells() {
    let (parsed, files) = one_file(HIER);
    let (ast, _) = files.build(&parsed);
    let mut nodes = Vec::new();
    let mut subs = Vec::new();
    let mut path = Vec::new();
    let mut scopes = vec![&ast.subckt];
    let leafs = vec![b"INV".to_vec()];
    Subckt::append(&files, b"buf", &leafs, &mut path, &mut scopes, &mut nodes, &mut subs, 64).unwrap();
    assert_eq!(strings(&nodes), vec!["m"]);
    assert_eq!(subs.len(), 1);
    let e = Subckt::append(&files, b"BAD", &leafs, &mut path, &mut scopes, &mut nodes, &mut subs, 64).unwrap_err();
    assert_eq!(String::from_utf8(e).unwrap(), "X3.NOPE");
    let e = Subckt::append(&files, b"FOO", &leafs, &mut path, &mut scopes, &mut nodes, &mut subs, 64).unwrap_err();
    assert_eq!(String::from_utf8(e).unwrap(), "FOO");
    assert!(path.is_empty());
    assert_eq!(scopes.len(), 1);
}

#[test]
fn append_nodes_keeps_last_spelling() {
    let text = "R1 A b 1\nR2 a c 2\n";
    let (parsed, files) = one_file(text);
    let (ast, _) = files.build(&parsed);
    let mut m = NodeMap::new();
    for (p, inst) in &ast.instance {
        inst.ctx.append_nodes(&files, *p, &mut m);
    }
    let keys: Vec<String> = m.entries.iter().map(|e| String::from_utf8(e.0.clone()).unwrap()).collect();
    assert_eq!(keys, vec!["a", "b", "c"]);
    let (_, a) = m.entries[0].1;
    assert_eq!(&text[a.start..a.end], "a");
    m.remove(b"b");
    assert_eq!(m.entries.len(), 2);
}

#[test]
fn append_nodes_lowercases_unicode_names() {
    let text = "R1 \u{c4}x b 1\nR2 \u{e4}X c 2\n";
    let (parsed, files) = one_file(text);
    let (ast, _) = files.build(&parsed);
    let mut m = NodeMap::new();
    for (p, inst) in &ast.instance {
        inst.ctx.append_nodes(&files, *p, &mut m);
    }
    let keys: Vec<String> = m.entries.iter().map(|e| String::from_utf8(e.0.clone()).unwrap()).collect();
    assert_eq!(keys, vec!["\u{e4}x", "b", "c"]);
    let (_, a) = m.entries[0].1;
    assert_eq!(&text[a.start..a.end], "\u{e4}X");
}

#[test]
fn append_finds_cell_by_unicode_lowercase() {
    let text = ".subckt \u{c9}TAGE a\nR1 a \u{d1}1 1\nR2 \u{f1}1 a 2\n.ends\n";
    let (parsed, files) = one_file(text);
    let (ast, errs) = files.build(&parsed);
    assert!(errs.is_empty());
    let mut nodes = Vec::new();
    let mut subs = Vec::new();
    let mut path = vec![b"X9".to_vec()];
    let mut scopes = vec![&ast.subckt];
    Subckt::append(&files, "\u{e9}tage".as_bytes(), &Vec::new(), &mut path, &mut scopes, &mut nodes, &mut subs, 64)
        .unwrap();
    assert_eq!(strings(&nodes), vec!["X9.\u{f1}1"]);
    assert_eq!(subs.len(), 1);
}

#[test]
fn report_of_unknown_command() {
    let file = "R1 a b 1\n.foo bar\n";
    let e = ParseError { pos: Some(Pos { start: 10, line_num: 2 }), err: ParseErrorInner::Unknown(Span { start: 10, end: 13 }) };
    let none = Style { prefix: Vec::new(), suffix: Vec::new() };
    let st = Styles { msg: none.clone(), typ: none.clone(), err: none };
    let r = String::from_utf8(e.report(&st, "t.sp", file)).unwrap();
    assert_eq!(r, "\nFile \"t.sp\", line 2\n.foo bar\n <-\nSyntaxError: Unknwon command `foo`\n");
}

#[test]
fn report_of_circular_definition() {
    let chain: Chain =
        [(inc("top.sp"), Some(Pos { start: 0, line_num: 3 })), (inc("a.sp"), Some(Pos { start: 0, line_num: 7 }))]
            .into_iter()
            .collect();
    let e = ParseError { pos: None, err: ParseErrorInner::CircularDefinition(chain, 0) };
    let none = Style { prefix: Vec::new(), suffix: Vec::new() };
    let st = Styles { msg: none.clone(), typ: none.clone(), err: none };
    let r = String::from_utf8(e.report(&st, "a.sp", "")).unwrap();
    assert_eq!(
        r,
        "\nFile \"a.sp\"\nCircularDefinition: Detect circular definition in File \"top.sp\", line 3\n * File \"top.sp\", line 3\n     ↓\n   File \"a.sp\", line 7\n     ↓\n * File \"top.sp\", line 3\n"
    );
}

#[test]
fn syntax_error_position() {
    let fa = file_ast("R1 a b 1\n.model\n", 0);
    assert!(fa.requests.is_empty());
    let (parsed, files) = (
        Parsed { top_ids: vec![ParsedId(0)], inner: vec![(inc("s.sp"), fa)] },
        Files { inner: vec!["R1 a b 1\n.model\n".to_string()] },
    );
    let (_, errs) = files.build(&parsed);
    assert_eq!(errs.len(), 1);
    assert!(matches!(errs[0].1.err, ParseErrorInner::Syntax));
    assert_eq!(errs[0].1.pos.map(|p| p.line_num), Some(2));
}

#[test]
fn displays() {
    let items = vec![b"a".to_vec(), b"bb".to_vec(), b"c".to_vec()];
    let mut f = Vec::new();
    display_inline(&mut f, &items, b' ', true);
    assert_eq!(f, b"a bb c".to_vec());
    let mut f = Vec::new();
    display_inline(&mut f, &items, b',', false);
    assert_eq!(f, b",a,bb,c".to_vec());
    let mut f = Vec::new();
    display_multiline(&mut f, &items, b'\n');
    assert_eq!(f, b"\na\nbb\nc".to_vec());
    let mut f = Vec::new();
    display_wrap(&mut f, &items, b'\n', b"+ ", b' ', 2);
    assert_eq!(f, b"\n+ a bb\n+ c".to_vec());
    let some = Some(3u8);
    let mut f = Vec::new();
    OptionDispaly(&some, |x: &u8| vec![b'0' + *x]).write(&mut f);
    assert_eq!(f, b"3".to_vec());
    let none: Option<u8> = None;
    let mut f = Vec::new();
    OptionDispaly(&none, |x: &u8| vec![b'0' + *x]).write(&mut f);
    assert!(f.is_empty());
}

#[test]
fn instance_type_from_first_letter() {
    assert_eq!(InstanceType::from(b'R'), InstanceType::Resistor);
    assert_eq!(InstanceType::from(b'x'), InstanceType::Subckt);
    assert_eq!(InstanceType::from(b'q'), InstanceType::BJT);
    assert_eq!(InstanceType::from(b'L'), InstanceType::Unknown(b'L'));
}
