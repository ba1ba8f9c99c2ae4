use netlist_db::ast::{NumLit, Unit, ValueBuilder};
use netlist_db::chars::{fold_name, fold_range};
use netlist_db::instance::instance;
use netlist_db::model::model;
use netlist_db::chain::{match_lib, section_of, section_pattern};
use netlist_db::cmds::lib;
use netlist_db::lex::{scan, unquote, Class};
use netlist_db::netlist::{Files, Parsed};
use netlist_db::number::float_unit;
use netlist_db::source::file_ast;
use netlist_db::span::{FileId, ParsedId};
use netlist_db::spice::{DefaultFmt, Piece};
use netlist_db::values::{key, node, value};

fn factor(u: Unit) -> f64 {
    match u {
        Unit::T => 1e+12,
        Unit::G => 1e+9,
        Unit::Meg => 1e+6,
        Unit::K => 1e+3,
        Unit::Mil => 25.4e-6,
        Unit::U => 1e-6,
        Unit::N => 1e-9,
        Unit::P => 1e-12,
        Unit::F => 1e-15,
        Unit::A => 1e-18,
        Unit::DB => 1.0,
        Unit::Min => 60.0,
        Unit::Hr => 3600.0,
        Unit::Day => 86400.0,
        Unit::Yr => 31536000.0,
    }
}

fn number(text: &[u8], n: &NumLit) -> f64 {
    let m: f64 = fast_float2::parse(&text[n.span.start..n.span.end]).unwrap();
    match n.unit {
        None => m,
        Some(Unit::DB) => 10.0_f64.powf(m / 20.0),
        Some(u) => m * factor(u),
    }
}

fn render(pieces: &[Piece], files: &[&str]) -> String {
    let mut out = String::new();
    for p in pieces {
        match p {
            Piece::Src(f, s) => out.push_str(&files[f.0][s.start..s.end]),
            Piece::Lit(l) => out.push_str(l),
            Piece::Num(f, n) => out.push_str(&format!("{}", number(files[f.0].as_bytes(), n))),
            Piece::Count(c) => out.push_str(&format!("{c}")),
        }
    }
    out
}

fn netlist_text(text: &str) -> String {
    let (out, n_errs) = netlist_text_errs(text);
    assert_eq!(n_errs, 0);
    out
}

fn netlist_text_errs(text: &str) -> (String, usize) {
    let fa = file_ast(text, 0);
    let parsed = Parsed {
        top_ids: vec![ParsedId(0)],
        inner: vec![(FileId::Include { path: "test.sp".to_string() }, fa)],
    };
    let files = Files { inner: vec![text.to_string()] };
    let (ast, errs) = files.build(&parsed);
    let pieces = DefaultFmt.ast(&ast);
    (render(&pieces, &[text]), errs.len())
}

fn text_of(s: &str, a: usize, b: usize) -> &str {
    &s[a..b]
}

#[test]
fn test_key() {
    let t = "1.233 ";
    let (n, _) = float_unit(t.as_bytes(), 0).unwrap();
    assert_eq!(1.233, number(t.as_bytes(), &n));
    let t = "1.233u ";
    let (n, _) = float_unit(t.as_bytes(), 0).unwrap();
    assert_eq!(1.233e-6, number(t.as_bytes(), &n));
    let t = "iw_ww ";
    let (k, _) = key(t.as_bytes(), 0).unwrap();
    assert_eq!(text_of(t, k.start, k.end), "iw_ww");
    let t = "iw.ww ";
    let (k, _) = key(t.as_bytes(), 0).unwrap();
    assert_eq!(text_of(t, k.start, k.end), "iw");
    let t = "iw.ww ";
    let (k, _) = node(t.as_bytes(), 0).unwrap();
    assert_eq!(text_of(t, k.start, k.end), "iw.ww");
    let t = "8.00000000e-01+2";
    let e = scan(t.as_bytes(), 0, Class::Formula);
    assert_eq!(text_of(t, 0, e), "8.00000000e-01+2");
    let t = "'8.00000000e-01 + 2'";
    let (k, _) = unquote(t.as_bytes(), 0).unwrap();
    assert_eq!(text_of(t, k.start, k.end), "8.00000000e-01 + 2");
    let t = "2+2";
    let (v, _) = value(t.as_bytes(), 0).unwrap();
    let pieces = DefaultFmt.value(ParsedId(0), &v);
    assert_eq!("'2+2'", render(&pieces, &[t]));
    let expected = "
.MODEL nch_mac NMOS
+ level=2 version=4.5
.SUBCKT INV0SR_12TH40 I ZN VDD VSS
XX0 ZN I VSS VPW NHVT11LL_CKT W=0.00000031 L=0.00000004
XX3 ZN I VDD VNW PHVT11LL_CKT W=0.00000027 L=0.00000004
.ENDS INV0SR_12TH40
.mode 'nch_mac' 'nmos' level=2";
    assert_eq!(
        (expected.to_string(), 1),
        netlist_text_errs(
            "        .model nch_mac nmos level=2
        + version=4.5
        .SUBCKT INV0SR_12TH40 I ZN VDD VSS
XX0 ZN I VSS VPW NHVT11LL_CKT W=310.00n L=40.00n
XX3 ZN I VDD VNW PHVT11LL_CKT W=270.00n L=40.00n
.ENDS INV0SR_12TH40
.mode 'nch_mac' 'nmos' level=2
        "
        )
    );
    assert_eq!(
        (expected.to_string(), 1),
        netlist_text_errs(
            "        .model nch_mac 
        + nmos (
            + level=2
        + version=4.5
    + )
        .SUBCKT INV0SR_12TH40 I ZN VDD VSS
XX0 ZN I VSS VPW NHVT11LL_CKT W=310.00n L=40.00n
XX3 ZN I VDD VNW PHVT11LL_CKT W=270.00n L=40.00n
.ENDS INV0SR_12TH40
.mode 'nch_mac' 'nmos' level=2
        "
        )
    );
    assert_eq!(
        "\n.DATA SWEEP\n+ var1 var2\n+ 1 2\n+ 2 4\n.ENDDATA",
        netlist_text(
            ".data SWEEP
                    + var1 var2
                    + 1    2
                    + 2    4
                    .enddata
        "
        )
    );
    assert_eq!(
        "\n.DATA SWEEP\n+ var1 var2 DATAFORM\n+ 1 '2+2'\n+ 2 4\n.ENDDATA",
        netlist_text(
            ".data SWEEP
                    + var1 var2 DATAFORM
                    + 1 2+2
                    + 2 4
                    .enddata
        "
        )
    );
    assert_eq!(
        "\n.DATA inputdata MER\n+ FILE='file1' p1=1 p2=3 p3=4\n+ FILE='file2' p1=1\n+ FILE='file3' p1=1\n.ENDDATA",
        netlist_text(
            ".DATA inputdata MER
                    + FILE='file1' p1=1 p2=3 p3=4
                    + FILE='file2' p1=1
                    + FILE='file3' p1=1
                 .ENDDATA
        "
        )
    );
}

#[test]
fn libmatch() {
    for t in ["some .EndL \nlines", "some .EndL tt \nlines", "some \n .EndL lines", "'some' tt"] {
        let r = lib(t.as_bytes(), 0);
        println!("{:?}", r.as_ref().map(|(x, k)| (x.as_ref().map(|(s, sec)| (s.start, s.end, sec.clone())), *k)));
    }
    // A `.lib` without a file and section skips to the end of its `.endl` line.
    let (x, k) = lib("some .EndL \nlines".as_bytes(), 0).unwrap();
    assert!(x.is_none());
    assert_eq!(k, 10);
    let (x, k) = lib("some .EndL tt \nlines".as_bytes(), 0).unwrap();
    assert!(x.is_none());
    assert_eq!(k, 13);
    let (x, k) = lib("no END here".as_bytes(), 0).unwrap();
    let (file, section) = x.unwrap();
    assert_eq!((file.start, file.end, section, k), (0, 2, b"end".to_vec(), 6));
    assert!(lib("'".as_bytes(), 0).is_none());
    // `.lib` names its file (quoted or not) and, optionally, a section.
    let (x, _) = lib("'some' tt".as_bytes(), 0).unwrap();
    let (file, section) = x.unwrap();
    assert_eq!(&"'some' tt"[file.start..file.end], "some");
    assert_eq!(section, b"tt".to_vec());
}

#[test]
fn test_match_lib() {
    let text = r#"
        .LIB TT
        * Some lines here
        M1 d g s b NMOS
        .MEAS ...
        .ENDL TT

        .lib tt
        R1 in out 10k
        .endl
        .lib ttg
        it is wrong
        .endl"#;
    assert_eq!(Some(("\n        R1 in out 10k\n".to_owned(), 6)), match_lib(text, "tt"));
}

#[test]
fn match_lib_missing_section() {
    assert_eq!(None, match_lib(".lib ff\nR1 a b 1\n.endl\n", "tt"));
}

#[test]
fn float_units() {
    for (t, want) in [("10k ", 10.0 * 1e+3), ("3meg", 3.0 * 1e+6), ("2mil", 2.0 * 25.4e-6), ("1.5n", 1.5 * 1e-9), ("20db", 10.0)] {
        let (n, _) = float_unit(t.as_bytes(), 0).unwrap();
        assert_eq!(want, number(t.as_bytes(), &n), "{t}");
    }
    assert!(float_unit(b"abc", 0).is_none());
}

#[test]
fn float_grammar_agrees_with_fast_float2() {
    let cases = [
        "1", "1.5", ".5", "5.", "1e3", "1.5E-3", "-2.5", "+7", "inf", "NaN", "infinity", "1e", "1.e5", "1.5e+",
        "e5", ".e1", "+.5", "-inf", "nan(", "1_000", "-", "+", ".", "0x10", "00012", "1e-", "INFINITYx", "infin",
        "-nan", "1.2.3", "3e2e1", "",
    ];
    for t in cases {
        let ours = float_unit(t.as_bytes(), 0).map(|(n, _)| n.span.end - n.span.start);
        let theirs = fast_float2::parse_partial::<f64, _>(t.as_bytes()).ok().map(|(_, len)| len);
        assert_eq!(ours, theirs, "{t:?}");
    }
}

#[test]
fn value_prefers_longer_formula() {
    let t = "1k*2";
    let (v, j) = value(t.as_bytes(), 0).unwrap();
    assert_eq!(j, 4);
    assert!(matches!(v, ValueBuilder::Expr(s) if s.start == 0 && s.end == 4));
    let t = "1k ";
    let (v, j) = value(t.as_bytes(), 0).unwrap();
    assert_eq!(j, 2);
    assert!(matches!(v, ValueBuilder::Num(n) if n.unit == Some(Unit::K)));
}

#[test]
fn netlist_round_trip() {
    let text = ".model nch_mac nmos level=2\n+ version=4.5\n.SUBCKT INV I ZN VDD VSS\nXX0 ZN I VSS VPW NHVT W=310.00n\n.ENDS INV\nR1 node1 node2 1k\n.param a=1\n";
    let out = netlist_text(text);
    assert_eq!(
        out,
        "\n.PARAM \n+ a=1\n.MODEL nch_mac NMOS\n+ level=2 version=4.5\n.SUBCKT INV I ZN VDD VSS\nXX0 ZN I VSS VPW NHVT W=0.00000031\n.ENDS INV\nR1 node1 node2 1000"
    );
}

#[test]
fn section_counts_lines_before_the_match() {
    assert_eq!(section_of("a\nb\n.lib x", Some((4, "body".to_string()))), Some(("body".to_string(), 2)));
    assert_eq!(section_of("abc", None), None);
    assert_eq!(section_of("abc", Some((0, String::new()))), Some((String::new(), 0)));
}


#[test]
fn writes_each_kind_of_statement() {
    let text = "\
.option post accurate=1
.ic v(a)=1 v(b)=2
.nodeset c 0.5
V1 in 0 PWL(0 0 1n 1)
I1 a b 2m
M1 d g s nch w=1
M2 d g s b pch
Q1 c b e npn
D1 p n dmod
X1 a b inv w=2
Y1 a b c
C1 a b 1p
L1 a b 1u
.unknowncmd foo=1 'x'
";
    let (out, n_errs) = netlist_text_errs(text);
    assert_eq!(n_errs, 1, "{out}");
    assert_eq!(
        out,
        ".OPTION \n+ post accurate=1\nV1 in 0 PWL(\n+ 0 0\n+ 0.000000001 1)\nI1 a b '2m'\nM1 d g s nch w=1\nM2 d g s b pch\nQ1 c b e npn\nD1 p n dmod\nX1 a b inv w=2\nY1 a b c\nC1 a b 0.000000000001\nL1 a b 0.000001\n.IC V(a)=1\n.IC V(b)=2\n.NODESET c=0.5\n.unknowncmd foo=1 'x'"
    );
}


#[test]
fn fold_name_follows_unicode_lowercase() {
    assert_eq!(fold_name("\u{c4}Bc".as_bytes()), "\u{e4}bc".as_bytes().to_vec());
    assert_eq!(fold_name("\u{3a3}A\u{3a3}".as_bytes()), "\u{3c3}a\u{3c2}".as_bytes().to_vec());
    assert_eq!(fold_name(&[0x41, 0xff]), vec![0x41, 0xff]);
    assert_eq!(fold_range(b"xAB y", 1, 3), b"ab".to_vec());
}

#[test]
fn resistor_value_stops_before_equal_sign() {
    let t = "R1 node1 node2 var1=key1";
    let (i, end) = instance(t.as_bytes(), 0).unwrap();
    assert_eq!(&t[end..], "=key1");
    assert_eq!("R1 node1 node2 'var1'", render(&DefaultFmt.instance(ParsedId(0), &i), &[t]));
    assert_eq!(netlist_text_errs("R1 node1 node2 var1=key1\nR2 a b 1\n").1, 1);
}

fn model_texts(t: &str) -> (String, String, Vec<(String, String)>) {
    let (m, end) = model(t.as_bytes(), 0).unwrap();
    assert_eq!(end, t.len());
    let name = t[m.name.start..m.name.end].to_string();
    let ty = render(&DefaultFmt.model_type(ParsedId(0), m.model_type), &[t]);
    let params = m
        .params
        .iter()
        .map(|kv| (t[kv.k.start..kv.k.end].to_string(), render(&DefaultFmt.value(ParsedId(0), &kv.v), &[t])))
        .collect();
    (name, ty, params)
}

#[test]
fn model_paren_form_equals_bare_form() {
    let a = model_texts(" nch_mac nmos level=2\n+ version=4.5");
    let b = model_texts(" nch_mac\n+ nmos (\n+ level=2\n+ version=4.5\n+ )");
    assert_eq!(a, b);
    assert_eq!(a.0, "nch_mac");
    assert_eq!(a.1, "NMOS");
    assert_eq!(a.2, vec![("level".to_string(), "2".to_string()), ("version".to_string(), "4.5".to_string())]);
}

#[test]
fn runs_classify_characters_beyond_ascii() {
    let t = "n\u{e4}me=1";
    let (k, _) = key(t.as_bytes(), 0).unwrap();
    assert_eq!(text_of(t, k.start, k.end), "n\u{e4}me");
    let t = "a\u{b0}b ";
    assert_eq!(scan(t.as_bytes(), 0, Class::Alnum), 1);
    let t = "x\u{4e2d}\u{6587}y z";
    assert_eq!(text_of(t, 0, scan(t.as_bytes(), 0, Class::Word)), "x\u{4e2d}\u{6587}y");
    let t = "ab\u{a0}c";
    assert_eq!(scan(t.as_bytes(), 0, Class::Path), 2);
    let t = "p\u{b0}q r";
    assert_eq!(scan(t.as_bytes(), 0, Class::Path), 4);
    assert_eq!(scan(&[0x61, 0xff, 0x62, 0x20], 0, Class::Alnum), 3);
}

#[test]
fn section_pattern_and_escaped_names() {
    assert_eq!(
        String::from_utf8(section_pattern("tt")).unwrap(),
        r"(?ims)^\s*\.lib\s+tt\b(.*?)^\s*\.endl(?:\s+tt\b)?"
    );
    let text = ".lib a.b\nR1 x y 1\n.endl a.b\n.lib axb\nR2 x y 2\n.endl\n";
    assert_eq!(match_lib(text, "a.b"), Some(("\nR1 x y 1\n".to_string(), 0)));
    assert_eq!(match_lib(text, "AXB").map(|x| x.1), Some(3));
    assert_eq!(match_lib(text, "a+b"), None);
}

#[test]
fn keywords_follow_unicode_case_mapping() {
    assert_eq!(
        netlist_text_errs(".DATA inputdata MER\n+ F\u{131}LE='file1' p1=1\n.ENDDATA\n"),
        ("\n.DATA inputdata MER\n+ FILE='file1' p1=1\n.ENDDATA".to_string(), 0)
    );
    assert_eq!(
        netlist_text_errs(".SUBC\u{212a}T INV I ZN\nR1 I ZN 1\n.ENDS INV\n"),
        ("\n.SUBCKT INV I ZN\nR1 I ZN 1\n.ENDS INV".to_string(), 0)
    );
}

#[test]
fn unit_suffix_follows_unicode_upper_case() {
    let t = "2m\u{131}l ";
    let (n, end) = float_unit(t.as_bytes(), 0).unwrap();
    assert_eq!(n.unit, Some(Unit::Mil));
    assert_eq!(&t[end..], " ");
    let t = "3MEG";
    assert_eq!(float_unit(t.as_bytes(), 0).unwrap().0.unit, Some(Unit::Meg));
}
