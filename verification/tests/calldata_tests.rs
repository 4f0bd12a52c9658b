use genvm::calldata::{Address, SerializeMap, SerializeStructVariant, SerializeTupleVariant, SerializeVec, Serializer, Value};

#[test]
fn addresses() {
    let mut a = Address::zero();
    a.ref_mut()[3] = 9;
    assert_eq!(a.raw()[3], 9);
    assert_eq!(Address::len(), 20);
    assert_eq!(Address::from([1; 20]).raw(), [1; 20]);
}

#[test]
fn variants() {
    assert!(matches!(Serializer::unit_variant("A".into()), Value::Str(s) if s == "A"));
    match Serializer::newtype_variant("V".into(), Value::Bool(true)) {
        Value::Dict(d) => {
            assert_eq!(d.len(), 1);
            assert_eq!(d[0].0, "V");
            assert!(matches!(d[0].1, Value::Bool(true)));
        }
        _ => panic!("not a dict"),
    }
    let mut t = SerializeTupleVariant::new("T".into());
    t.serialize_field(Value::Null);
    t.serialize_field(Value::Bool(false));
    match t.end() {
        Value::Dict(d) => assert!(matches!(&d[0].1, Value::Array(a) if a.len() == 2)),
        _ => panic!("not a dict"),
    }
    let mut v = SerializeVec::new();
    v.serialize_element(Value::Null);
    assert!(matches!(v.end(), Value::Array(a) if a.len() == 1));
}

#[test]
fn maps_sort_and_replace() {
    let mut m = SerializeMap::new();
    m.serialize_key("b".into());
    m.serialize_value(Value::Bool(true));
    m.serialize_field("a", Value::Null);
    m.serialize_field("b", Value::Bool(false));
    match m.end() {
        Value::Dict(d) => {
            let keys: Vec<&str> = d.iter().map(|(k, _)| k.as_str()).collect();
            assert_eq!(keys, vec!["a", "b"]);
            assert!(matches!(d[1].1, Value::Bool(false)));
        }
        _ => panic!("not a dict"),
    }
    let mut s = SerializeStructVariant::new("S".into());
    s.serialize_field("x", Value::Null);
    match s.end() {
        Value::Dict(d) => {
            assert_eq!(d[0].0, "S");
            assert!(matches!(&d[0].1, Value::Dict(inner) if inner[0].0 == "x"));
        }
        _ => panic!("not a dict"),
    }
}
