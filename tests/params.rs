use shipico::function::{aaaa, asd, functions, FunctionDefinition};
use shipico::params::{Param, ParamType};

#[test]
fn check() {
    assert!(Param::i64(0).is_i64());
}

#[test]
fn param_type_tags() {
    assert_eq!(Param::from_i64(3).get_type(), ParamType::i64);
    assert_eq!(Param::from_double(1).get_type(), ParamType::double);
    assert_eq!(Param::from_single(2).get_type(), ParamType::single);
    assert_eq!(Param::i64(7).into_i64(), Some(7));
    assert_eq!(Param::i64(7).into_single(), None);
    assert!(!Param::single(0).is_i64());
    assert!(ParamType::Unknown.is_unknown());
    assert!(!ParamType::i64.is_unknown());
    assert_eq!(ParamType::single.name(), "single");
}

#[test]
fn catalog_and_call() {
    let fs = functions();
    assert_eq!(fs.len(), 2);
    assert_eq!(fs[0].name, "asd");
    let two: u32 = 2.0f32.to_bits();
    let mut memory = vec![Param::i64(5), Param::single(two)];
    let r = fs[0].call(&vec![0, 1], &mut memory);
    assert_eq!(r, (2, 3));
    assert_eq!(memory, vec![Param::i64(5), Param::single(two), Param::single(two)]);

    let mut memory = vec![Param::double(1.5f64.to_bits())];
    let r = fs[1].call(&vec![0], &mut memory);
    assert_eq!(r, (1, 1));
    assert_eq!(memory.len(), 1);
}

#[test]
fn asd_passes_second_argument() {
    assert_eq!(asd(5, 0x4000_0000), 0x4000_0000);
    aaaa();
    let f = FunctionDefinition::new("f", vec![ParamType::i64], vec![]);
    assert_eq!(f.inputs, vec![ParamType::i64]);
}
