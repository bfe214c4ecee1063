use spwn_core::arena::Arena;
use spwn_core::sources::{CodeArea, CodeSpan, SpwnSource};
use spwn_core::value::{StoredValue, Value};

fn area() -> CodeArea {
    CodeArea {
        src: SpwnSource::File("test.spwn".to_string()),
        span: CodeSpan { start: 0, end: 1 },
    }
}

fn sv(v: Value) -> StoredValue {
    StoredValue { value: v, area: area() }
}

#[test]
fn insert_and_get_round_trip() {
    let mut mem = Arena::new();
    let k = mem.insert(sv(Value::Int(7)));
    assert_eq!(mem.get(k).value, Value::Int(7));
    assert_eq!(mem.len(), 1);
}

#[test]
fn deep_clone_of_shared_array_keeps_sharing() {
    let mut mem = Arena::new();
    let x = mem.insert(sv(Value::Int(7)));
    let arr = mem.insert(sv(Value::Array(vec![x, x])));
    let before = mem.len();
    let r = mem.deep_clone(arr);
    assert!(r.0 >= before);
    match &mem.get(r).value {
        Value::Array(ks) => {
            assert_eq!(ks.len(), 2);
            // the two slots again hold one shared key
            assert_eq!(ks[0], ks[1]);
            // which is distinct from the original key
            assert_ne!(ks[0], x);
            assert_eq!(mem.get(ks[0]).value, Value::Int(7));
        }
        other => panic!("expected an array, got {:?}", other),
    }
    // the original is untouched
    match &mem.get(arr).value {
        Value::Array(ks) => assert_eq!(ks, &vec![x, x]),
        other => panic!("expected an array, got {:?}", other),
    }
}

#[test]
fn deep_clone_keeps_distinct_keys_distinct() {
    let mut mem = Arena::new();
    let x = mem.insert(sv(Value::Int(1)));
    let y = mem.insert(sv(Value::Int(2)));
    let arr = mem.insert(sv(Value::Array(vec![x, y, x])));
    let r = mem.deep_clone(arr);
    match &mem.get(r).value {
        Value::Array(ks) => {
            assert_eq!(ks.len(), 3);
            assert_eq!(ks[0], ks[2]);
            assert_ne!(ks[0], ks[1]);
            assert_eq!(mem.get(ks[0]).value, Value::Int(1));
            assert_eq!(mem.get(ks[1]).value, Value::Int(2));
        }
        other => panic!("expected an array, got {:?}", other),
    }
}

#[test]
fn deep_clone_keys_shares_exactly_like_the_input() {
    let mut mem = Arena::new();
    let ka = mem.insert(sv(Value::Int(10)));
    let kb = mem.insert(sv(Value::Int(20)));
    let keys = vec![ka, kb, ka];
    let before = mem.len();
    let out = mem.deep_clone_keys(&keys);
    assert_eq!(out.len(), 3);
    assert_eq!(out[0], out[2]);
    assert_ne!(out[0], out[1]);
    for k in &out {
        assert!(k.0 >= before);
    }
    assert_eq!(mem.get(out[0]).value, Value::Int(10));
    assert_eq!(mem.get(out[1]).value, Value::Int(20));
}

#[test]
fn deep_clone_follows_nested_structure() {
    let mut mem = Arena::new();
    let x = mem.insert(sv(Value::Int(3)));
    let inner = mem.insert(sv(Value::Array(vec![x])));
    let outer = mem.insert(sv(Value::Dict(vec![("a".to_string(), inner)])));
    let r = mem.deep_clone(outer);
    match &mem.get(r).value {
        Value::Dict(es) => {
            assert_eq!(es.len(), 1);
            assert_eq!(es[0].0, "a".to_string());
            assert_ne!(es[0].1, inner);
            match &mem.get(es[0].1).value {
                Value::Array(ks) => {
                    assert_eq!(ks.len(), 1);
                    assert_ne!(ks[0], x);
                    assert_eq!(mem.get(ks[0]).value, Value::Int(3));
                }
                other => panic!("expected an array, got {:?}", other),
            }
        }
        other => panic!("expected a dict, got {:?}", other),
    }
}
