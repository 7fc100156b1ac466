use clvm_tree::bindings::Bindings;
use clvm_tree::codec::{sexp_from_bytes, sexp_to_bytes, CodecError};
use clvm_tree::curry;
use clvm_tree::curry::{
    cons, curry_obj_code, make_args, uncurry, uncurry_pattern_core, uncurry_pattern_function, uncurry_tree,
};
use clvm_tree::matching::{match_sexp, unify_bindings};
use clvm_tree::program::SerializedProgram;
use clvm_tree::sexp::{equal_to, SExp, ShapeError};

fn a(bytes: &[u8]) -> SExp {
    SExp::atom(bytes.to_vec())
}

fn p(x: SExp, y: SExp) -> SExp {
    SExp::pair(x, y)
}

#[test]
fn patterns_have_their_fixed_encoding() {
    let mut f: Vec<u8> = vec![0xFF, 0x02, 0xFF, 0xFF, 0x01, 0xFF, 0x3A, 0x88];
    f.extend_from_slice(b"function");
    f.extend_from_slice(&[0xFF, 0xFF, 0x3A, 0x84]);
    f.extend_from_slice(b"core");
    f.push(0x80);
    assert_eq!(sexp_to_bytes(&uncurry_pattern_function()).unwrap(), f);
    let mut c: Vec<u8> = vec![0xFF, 0x04, 0xFF, 0xFF, 0x01, 0xFF, 0x3A, 0x84];
    c.extend_from_slice(b"parm");
    c.extend_from_slice(&[0xFF, 0xFF, 0x3A, 0x84]);
    c.extend_from_slice(b"core");
    c.push(0x80);
    assert_eq!(sexp_to_bytes(&uncurry_pattern_core()).unwrap(), c);
}

#[test]
fn curry_builds_the_apply_shape() {
    let prog = curry::curry(&a(&[1]), &vec![a(&[0x2A])]);
    assert_eq!(
        sexp_to_bytes(&prog).unwrap(),
        vec![
            0xFFu8, 0x02, 0xFF, 0xFF, 0x01, 0x01, 0xFF, 0xFF, 0x04, 0xFF, 0xFF, 0x01, 0x2A, 0xFF,
            0x01, 0x80, 0x80
        ]
    );
}

#[test]
fn make_args_without_arguments_is_the_atom_one() {
    assert!(equal_to(&make_args(&Vec::new()), &a(&[1])));
    assert_eq!(sexp_to_bytes(&make_args(&vec![a(&[9])])).unwrap(), vec![
        0xFFu8, 0x04, 0xFF, 0xFF, 0x01, 0x09, 0xFF, 0x01, 0x80
    ]);
}

#[test]
fn uncurry_recovers_identity_and_one_argument() {
    let f = a(&[1]);
    let prog = curry::curry(&f, &vec![a(&[0x2A])]);
    let (func, bytes) = uncurry_tree(&prog).unwrap();
    assert!(equal_to(&func, &f));
    assert!(equal_to(&bytes, &a(&[0x2A])));
}

#[test]
fn uncurry_recovers_several_arguments_in_order() {
    let f = p(a(&[2]), p(a(&[5, 6]), SExp::null()));
    let args = vec![a(&[1, 2]), a(&[]), a(&[0xFF]), a(&[3])];
    let prog = curry::curry(&f, &args);
    let (func, bytes) = uncurry_tree(&prog).unwrap();
    assert!(equal_to(&func, &f));
    assert!(equal_to(&bytes, &a(&[1, 2, 0xFF, 3])));
}

#[test]
fn uncurry_without_arguments() {
    let f = a(&[7, 7]);
    let (func, bytes) = uncurry_tree(&curry::curry(&f, &Vec::new())).unwrap();
    assert!(equal_to(&func, &f));
    assert!(equal_to(&bytes, &SExp::null()));
}

#[test]
fn uncurry_of_other_shapes_is_none() {
    assert!(uncurry_tree(&a(&[1])).is_none());
    assert!(uncurry_tree(&SExp::null()).is_none());
    assert!(uncurry_tree(&p(a(&[1]), a(&[2]))).is_none());
    // apply shape, but the chain ends in 2, not in 1
    let bad_end = p(a(&[2]), p(p(a(&[1]), a(&[9])), p(a(&[2]), SExp::null())));
    assert!(uncurry_tree(&bad_end).is_none());
    // wrong operator
    let wrong_op = p(a(&[3]), p(p(a(&[1]), a(&[9])), p(a(&[1]), SExp::null())));
    assert!(uncurry_tree(&wrong_op).is_none());
    // an argument that is a pair cannot be joined
    let pair_arg = curry::curry(&a(&[1]), &vec![p(a(&[1]), a(&[2]))]);
    assert!(uncurry_tree(&pair_arg).is_none());
}

#[test]
fn uncurry_on_encoded_programs() {
    let prog = curry::curry(&a(&[1]), &vec![a(&[0x2A]), a(&[0x2B])]);
    let ser = SerializedProgram::from_tree(&prog).unwrap();
    let (func, bytes) = uncurry(&ser).unwrap().unwrap();
    assert_eq!(func.to_bytes(), vec![0x01u8]);
    assert_eq!(bytes.to_bytes(), vec![0x82u8, 0x2A, 0x2B]);
    let plain = SerializedProgram::from_bytes(&vec![0x01u8]);
    assert!(uncurry(&plain).unwrap().is_none());
    let broken = SerializedProgram::from_bytes(&vec![0xFFu8, 0x01]);
    assert_eq!(uncurry(&broken).unwrap_err(), CodecError::TruncatedInput);
    let back = sexp_from_bytes(&ser.to_bytes()).unwrap();
    assert!(equal_to(&back, &prog));
    assert!(equal_to(&ser.to_program().unwrap(), &prog));
}

#[test]
fn concat_joins_atoms_and_refuses_pairs() {
    assert!(equal_to(&curry::concat(&vec![a(&[1]), a(&[2, 3])]).unwrap(), &a(&[1, 2, 3])));
    assert!(equal_to(&curry::concat(&Vec::new()).unwrap(), &SExp::null()));
    assert_eq!(
        curry::concat(&vec![a(&[1]), p(a(&[1]), a(&[2]))]).unwrap_err(),
        ShapeError::UnexpectedShape
    );
}

#[test]
fn cons_pairs_copies() {
    let c = cons(&a(&[1]), &a(&[2]));
    assert_eq!(sexp_to_bytes(&c).unwrap(), vec![0xFFu8, 0x01, 0x02]);
}

#[test]
fn same_name_twice_must_unify() {
    let capture = p(a(b"$"), a(b"x"));
    let pattern = p(capture.duplicate(), capture);
    let differ = p(a(&[1]), a(&[2]));
    assert!(match_sexp(&pattern, &differ, Bindings::new()).is_none());
    let same = p(a(&[1]), a(&[1]));
    let found = match_sexp(&pattern, &same, Bindings::new()).unwrap();
    assert_eq!(found.entries.len(), 1);
    assert!(equal_to(found.get(&b"x".to_vec()).unwrap(), &a(&[1])));
    assert!(found.get(&b"y".to_vec()).is_none());
}

#[test]
fn atom_capture_refuses_pairs_and_any_capture_takes_them() {
    let subject = p(a(&[1]), a(&[2]));
    let atom_capture = p(a(b"$"), a(b"x"));
    assert!(match_sexp(&atom_capture, &subject, Bindings::new()).is_none());
    let any_capture = p(a(b":"), a(b"x"));
    let found = match_sexp(&any_capture, &subject, Bindings::new()).unwrap();
    assert!(equal_to(found.get(&b"x".to_vec()).unwrap(), &subject));
}

#[test]
fn anonymous_captures_match_their_marker_only() {
    let anon_atom = p(a(b"$"), a(b"$"));
    assert!(match_sexp(&anon_atom, &a(b"$"), Bindings::new()).is_some());
    assert!(match_sexp(&anon_atom, &a(b"x"), Bindings::new()).is_none());
    let anon_any = p(a(b":"), a(b":"));
    let found = match_sexp(&anon_any, &a(b":"), Bindings::new()).unwrap();
    assert_eq!(found.entries.len(), 0);
    assert!(match_sexp(&anon_any, &a(b"x"), Bindings::new()).is_none());
    assert!(match_sexp(&anon_any, &p(a(b":"), a(b":")), Bindings::new()).is_none());
}

#[test]
fn atoms_match_equal_atoms() {
    assert!(match_sexp(&a(&[1, 2]), &a(&[1, 2]), Bindings::new()).is_some());
    assert!(match_sexp(&a(&[1, 2]), &a(&[1, 3]), Bindings::new()).is_none());
    assert!(match_sexp(&a(&[1, 2]), &p(a(&[1]), a(&[2])), Bindings::new()).is_none());
    assert!(match_sexp(&p(a(&[1]), a(&[2])), &a(&[1]), Bindings::new()).is_none());
    assert!(match_sexp(&p(a(&[1]), a(&[2])), &p(a(&[1]), a(&[2])), Bindings::new()).is_some());
}

#[test]
fn unify_keeps_or_refuses() {
    let b = unify_bindings(Bindings::new(), &b"k".to_vec(), &a(&[1])).unwrap();
    let b = unify_bindings(b, &b"k".to_vec(), &a(&[1])).unwrap();
    assert_eq!(b.entries.len(), 1);
    assert!(unify_bindings(b, &b"k".to_vec(), &a(&[2])).is_none());
}

fn to_hex(bytes: &[u8]) -> String {
    let mut s = String::new();
    for b in bytes {
        s.push_str(&format!("{:02x}", b));
    }
    s
}

#[test]
fn test_curry_assemble() {
    let cur_prog = SerializedProgram::from_tree(&curry_obj_code()).unwrap();
    println!("Curry prog: {}", to_hex(&cur_prog.to_bytes()));
    assert_eq!(
        to_hex(&cur_prog.to_bytes()),
        "ff02ffff01ff02ff04ffff04ff02ffff04ff05ffff04ff07ff8080808080ffff04ffff01ffff04ffff0102ffff\
         04ffff04ffff0101ff0580ffff04ffff02ff06ffff04ff02ffff04ff0bffff01ff0180808080ff80808080ff02\
         ffff03ff05ffff01ff04ffff0104ffff04ffff04ffff0101ff0980ffff04ffff02ff06ffff04ff02ffff04ff0d\
         ffff04ff0bff8080808080ff80808080ffff010b80ff0180ff018080"
    );
}

#[test]
fn anonymous_capture_keeps_the_table() {
    let known = unify_bindings(Bindings::new(), &b"x".to_vec(), &a(&[7])).unwrap();
    let anon_atom = p(a(b"$"), a(b"$"));
    let found = match_sexp(&anon_atom, &a(b"$"), known).unwrap();
    assert_eq!(found.entries.len(), 1);
    assert!(equal_to(found.get(&b"x".to_vec()).unwrap(), &a(&[7])));
    let anon_any = p(a(b":"), a(b":"));
    let found = match_sexp(&anon_any, &a(b":"), found).unwrap();
    assert!(equal_to(found.get(&b"x".to_vec()).unwrap(), &a(&[7])));
}

#[test]
fn a_name_on_both_sides_of_an_anonymous_capture_must_unify() {
    let capture = p(a(b":"), a(b"x"));
    let pattern = p(capture.duplicate(), p(p(a(b"$"), a(b"$")), capture));
    let differ = p(a(&[1]), p(a(b"$"), a(&[2])));
    assert!(match_sexp(&pattern, &differ, Bindings::new()).is_none());
    let same = p(a(&[1]), p(a(b"$"), a(&[1])));
    let found = match_sexp(&pattern, &same, Bindings::new()).unwrap();
    assert_eq!(found.entries.len(), 1);
    assert!(equal_to(found.get(&b"x".to_vec()).unwrap(), &a(&[1])));
}

#[test]
fn matching_only_adds_to_the_table() {
    let known = unify_bindings(Bindings::new(), &b"k".to_vec(), &a(&[9, 9])).unwrap();
    let pattern = p(p(a(b":"), a(b"x")), p(a(&[5]), p(a(b"$"), a(b"y"))));
    let subject = p(p(a(&[1]), a(&[2])), p(a(&[5]), a(&[3])));
    let found = match_sexp(&pattern, &subject, known).unwrap();
    assert!(equal_to(found.get(&b"k".to_vec()).unwrap(), &a(&[9, 9])));
    assert!(equal_to(found.get(&b"x".to_vec()).unwrap(), &p(a(&[1]), a(&[2]))));
    assert!(equal_to(found.get(&b"y".to_vec()).unwrap(), &a(&[3])));
}
