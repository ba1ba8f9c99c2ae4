use netlist_db::built::{Builder, InstanceCtx, Value};
use netlist_db::instance::instance;
use netlist_db::meas::MeasCols;
use netlist_db::model::model;
use netlist_db::sweep::{data_name, sweep_columns, sweep_fields, sweep_names, DataName, DataType};

const SW0: &str = "title line\n sweep v(out   i(vdd \n$&%#\n0.1000000E+010.2000000E+010.3000000E+01\n0.4000000E+010.5000000E+010.6000000E+01\n0.7000000E+01";

#[test]
fn sweep_layout() {
    let s = SW0.as_bytes();
    let (names, start) = sweep_names(s).unwrap();
    assert_eq!(names.len(), 2);
    assert_eq!(names[0].ty, DataType::V);
    assert_eq!(names[0].name, b"out".to_vec());
    assert_eq!(names[1].ty, DataType::I);
    assert_eq!(names[1].name, b"vdd".to_vec());
    let fields = sweep_fields(s, start);
    assert_eq!(fields.len(), 7);
    let values: Vec<f64> = fields.iter().map(|f| lexical_core::parse::<f64>(&s[f.start..f.end]).unwrap()).collect();
    let cols = sweep_columns(names.len(), values.len());
    let out: Vec<f64> = cols[0].iter().map(|&i| values[i]).collect();
    let vdd: Vec<f64> = cols[1].iter().map(|&i| values[i]).collect();
    assert_eq!(out, vec![2.0, 5.0]);
    assert_eq!(vdd, vec![3.0, 6.0]);
}

#[test]
fn sweep_needs_marker_and_names() {
    assert!(sweep_names(b"sweep v(out\n0.1").is_none());
    assert!(sweep_names(b"no header here").is_none());
    assert!(sweep_names(b"sweep\n$&%#\n").is_none());
}

#[test]
fn data_names_compare_without_case() {
    let (a, _) = data_name(b"v(OUT", 0).unwrap();
    let b = DataName { ty: DataType::V, name: b"out".to_vec() };
    let c = DataName { ty: DataType::I, name: b"out".to_vec() };
    assert!(a == b);
    assert!(a != c);
    assert!(data_name(b"x(out", 0).is_none());
    assert!(data_name(b"V(out", 0).is_none());
}

#[test]
fn build_replaces_spans_by_texts() {
    let t = "M1 d g s b nch w=1u";
    let (inst, _) = instance(t.as_bytes(), 0).unwrap();
    let b = inst.build(t.as_bytes());
    assert_eq!(b.name, b"M1");
    assert!(std::ptr::eq(b.name.as_ptr(), t.as_bytes().as_ptr()));
    match b.ctx {
        InstanceCtx::MOSFET(m) => {
            assert_eq!(m.nd, b"d");
            assert!(std::ptr::eq(m.nd.as_ptr(), t.as_bytes()[3..].as_ptr()));
            assert_eq!(m.ng, b"g");
            assert_eq!(m.nb, Some(&b"b"[..]));
            assert_eq!(m.mname, b"nch");
            assert_eq!(m.params.len(), 1);
            assert_eq!(m.params[0].k, b"w");
            match &m.params[0].v {
                Value::Num(n) => assert_eq!(n.text, b"1"),
                Value::Expr(_) => panic!("expected a number"),
            }
        }
        _ => panic!("expected a MOSFET"),
    }
    let t = " nch_mac nmos level=2";
    let (m, _) = model(t.as_bytes(), 0).unwrap();
    let b = m.build(t.as_bytes());
    assert_eq!(b.name, b"nch_mac");
    assert_eq!(b.params.len(), 1);
}

#[test]
fn meas_cols_by_prefix() {
    let names = vec![b"kcell_a".to_vec(), b"other".to_vec(), b"kcell_b".to_vec()];
    let mut c = MeasCols::new(names.clone(), Some(b"kcell".to_vec()));
    assert_eq!(c.next(), Some(0));
    assert_eq!(c.next(), Some(2));
    assert_eq!(c.next(), None);
    assert_eq!(c.next(), None);
    let mut c = MeasCols::new(names, None);
    assert_eq!(c.next(), Some(0));
    assert_eq!(c.next(), Some(1));
    assert_eq!(c.next(), Some(2));
    assert_eq!(c.next(), None);
}
