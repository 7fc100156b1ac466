use clvm_tree::hash::tree_hash;
use clvm_tree::sexp::SExp;

fn hex(bytes: &[u8]) -> String {
    let mut s = String::new();
    for b in bytes {
        s.push_str(&format!("{:02x}", b));
    }
    s
}

#[test]
fn hash_of_the_empty_atom() {
    assert_eq!(
        hex(&tree_hash(&SExp::null()).bytes),
        "4bf5122f344554c53bde2ebb8cd2b7e3d1600ad631c385a5d7cce23c7785459a"
    );
}

#[test]
fn hash_of_the_atom_one() {
    assert_eq!(
        hex(&tree_hash(&SExp::atom(vec![1])).bytes),
        "9dcf97a184f32623d11a73124ceb99a5709b083721e878a16d78f596718ba7b2"
    );
}

#[test]
fn hash_of_a_pair() {
    let t = SExp::pair(SExp::atom(vec![1]), SExp::null());
    assert_eq!(
        hex(&tree_hash(&t).bytes),
        "ba4484b961b7a2369d948d06c55b64bdbfaffb326bc13b490ab1215dd33d8d46"
    );
}

#[test]
fn equal_trees_hash_alike_and_others_do_not() {
    let a = SExp::pair(SExp::atom(vec![1, 2, 3]), SExp::atom(vec![4]));
    let items = vec![SExp::atom(vec![1, 2, 3])];
    let listed = SExp::list(&items);
    let b = SExp::pair(listed.as_list()[0].duplicate(), SExp::atom(vec![4]));
    let c = SExp::pair(SExp::atom(vec![1, 2, 2]), SExp::atom(vec![4]));
    assert_eq!(tree_hash(&a).bytes, tree_hash(&b).bytes);
    assert_ne!(tree_hash(&a).bytes, tree_hash(&c).bytes);
    assert_eq!(tree_hash(&a).bytes.len(), 32);
}
