//! The order of set names: byte by byte, as strings are ordered.
//!
//! Set names are kept and handed out in ascending order. A name comes before
//! another where its UTF-8 bytes come first in the dictionary: the first byte
//! in which the two differ decides, and a name comes before every longer name
//! that it begins.

use vstd::prelude::*;
use vstd::utf8::{encode_utf8, encode_utf8_decode_utf8};

verus! {

/// Whether `a` comes before `b`, looking only at the bytes from `from` on.
pub open spec fn lex_less_from(a: Seq<u8>, b: Seq<u8>, from: int) -> bool
    decreases a.len() - from,
{
    if from < 0 || from >= b.len() {
        false
    } else if from >= a.len() {
        true
    } else if a[from] != b[from] {
        a[from] < b[from]
    } else {
        lex_less_from(a, b, from + 1)
    }
}

/// Whether the bytes `a` come before the bytes `b`.
pub open spec fn lex_less(a: Seq<u8>, b: Seq<u8>) -> bool {
    lex_less_from(a, b, 0)
}

/// Whether the name `a` comes before the name `b`.
pub open spec fn name_less(a: Seq<char>, b: Seq<char>) -> bool {
    lex_less(encode_utf8(a), encode_utf8(b))
}

/// Whether the names stand in ascending order; then none is there twice.
pub open spec fn ascending(names: Seq<Seq<char>>) -> bool {
    forall|i: int, j: int| 0 <= i < j < names.len() ==> name_less(names[i], names[j])
}

proof fn lemma_lex_asymmetric(a: Seq<u8>, b: Seq<u8>, from: int)
    requires
        lex_less_from(a, b, from),
    ensures
        !lex_less_from(b, a, from),
    decreases a.len() - from,
{
    if from < a.len() && from < b.len() && a[from] == b[from] {
        lemma_lex_asymmetric(a, b, from + 1);
    }
}

proof fn lemma_lex_transitive(a: Seq<u8>, b: Seq<u8>, c: Seq<u8>, from: int)
    requires
        lex_less_from(a, b, from),
        lex_less_from(b, c, from),
    ensures
        lex_less_from(a, c, from),
    decreases a.len() - from,
{
    if from < a.len() && a[from] == b[from] && b[from] == c[from] {
        lemma_lex_transitive(a, b, c, from + 1);
    }
}

proof fn lemma_lex_total(a: Seq<u8>, b: Seq<u8>, from: int)
    requires
        0 <= from <= a.len(),
        from <= b.len(),
        !lex_less_from(a, b, from),
        !lex_less_from(b, a, from),
    ensures
        a.len() == b.len(),
        forall|k: int| from <= k < a.len() ==> a[k] == b[k],
    decreases a.len() - from,
{
    if from < a.len() && from < b.len() {
        lemma_lex_total(a, b, from + 1);
    }
}

/// No name comes before itself, and of two names at most one comes before
/// the other.
pub proof fn lemma_name_less_asymmetric(a: Seq<char>, b: Seq<char>)
    requires
        name_less(a, b),
    ensures
        !name_less(b, a),
        a != b,
{
    lemma_lex_asymmetric(encode_utf8(a), encode_utf8(b), 0);
}

/// A name that comes before a second that comes before a third comes before
/// the third.
pub proof fn lemma_name_less_transitive(a: Seq<char>, b: Seq<char>, c: Seq<char>)
    requires
        name_less(a, b),
        name_less(b, c),
    ensures
        name_less(a, c),
{
    lemma_lex_transitive(encode_utf8(a), encode_utf8(b), encode_utf8(c), 0);
}

/// Of two different names one comes before the other.
pub proof fn lemma_name_less_total(a: Seq<char>, b: Seq<char>)
    requires
        a != b,
    ensures
        name_less(a, b) || name_less(b, a),
{
    if !name_less(a, b) && !name_less(b, a) {
        lemma_lex_total(encode_utf8(a), encode_utf8(b), 0);
        assert(encode_utf8(a) =~= encode_utf8(b));
        encode_utf8_decode_utf8(a);
        encode_utf8_decode_utf8(b);
    }
}

/// Whether `a` comes before `b`.
pub fn name_is_less(a: &str, b: &str) -> (less: bool)
    ensures
        less == name_less(a@, b@),
{
    let left = a.as_bytes();
    let right = b.as_bytes();
    let mut i: usize = 0;
    while i < left.len() && i < right.len()
        invariant
            i <= left@.len(),
            i <= right@.len(),
            left@ == encode_utf8(a@),
            right@ == encode_utf8(b@),
            name_less(a@, b@) == lex_less_from(left@, right@, i as int),
        decreases left@.len() - i,
    {
        if left[i] != right[i] {
            return left[i] < right[i];
        }
        i += 1;
    }
    i < right.len()
}

/// Where `name` belongs among `names`: behind the names at the front that
/// come before it.
pub open spec fn insert_index(names: Seq<Seq<char>>, name: Seq<char>) -> int
    decreases names.len(),
{
    if names.len() == 0 || !name_less(names[0], name) {
        0
    } else {
        1 + insert_index(names.skip(1), name)
    }
}

/// Whether `name` stands where it belongs among `names`.
pub open spec fn stands_at(names: Seq<Seq<char>>, name: Seq<char>, index: int) -> bool {
    0 <= index < names.len() && names[index] == name
}

/// `names` with `name` put where it belongs, unless it stands there already.
pub open spec fn insert_sorted(names: Seq<Seq<char>>, name: Seq<char>) -> Seq<Seq<char>> {
    let index = insert_index(names, name);
    if stands_at(names, name, index) {
        names
    } else {
        names.insert(index, name)
    }
}

/// The names in front of where `name` belongs come before it, and the name
/// that stands there does not.
pub proof fn lemma_insert_index(names: Seq<Seq<char>>, name: Seq<char>)
    ensures
        0 <= insert_index(names, name) <= names.len(),
        forall|j: int| 0 <= j < insert_index(names, name) ==> name_less(#[trigger] names[j], name),
        insert_index(names, name) < names.len() ==> !name_less(
            names[insert_index(names, name)],
            name,
        ),
    decreases names.len(),
{
    if names.len() > 0 && name_less(names[0], name) {
        let rest = names.skip(1);
        lemma_insert_index(rest, name);
        assert forall|j: int| 0 <= j < insert_index(names, name) implies name_less(
            #[trigger] names[j],
            name,
        ) by {
            if j > 0 {
                assert(names[j] == rest[j - 1]);
            }
        }
        if insert_index(names, name) < names.len() {
            assert(names[insert_index(names, name)] == rest[insert_index(rest, name)]);
        }
    }
}

/// The place behind the names that come before `name`, in front of one that
/// does not, is where `name` belongs.
pub proof fn lemma_insert_index_is(names: Seq<Seq<char>>, name: Seq<char>, index: int)
    requires
        0 <= index <= names.len(),
        forall|j: int| 0 <= j < index ==> name_less(#[trigger] names[j], name),
        index < names.len() ==> !name_less(names[index], name),
    ensures
        insert_index(names, name) == index,
    decreases index,
{
    if index > 0 {
        let rest = names.skip(1);
        assert(name_less(names[0], name));
        assert forall|j: int| 0 <= j < index - 1 implies name_less(#[trigger] rest[j], name) by {
            assert(rest[j] == names[j + 1]);
        }
        if index < names.len() {
            assert(rest[index - 1] == names[index]);
        }
        lemma_insert_index_is(rest, name, index - 1);
    }
}

/// Among names in ascending order, a name is found where it belongs or not
/// at all; and with it put there the names are in ascending order still, the
/// same names and this one.
pub proof fn lemma_insert_sorted(names: Seq<Seq<char>>, name: Seq<char>)
    requires
        ascending(names),
    ensures
        ascending(insert_sorted(names, name)),
        names.contains(name) <==> stands_at(names, name, insert_index(names, name)),
        forall|other: Seq<char>| #[trigger]
            insert_sorted(names, name).contains(other) <==> other == name || names.contains(
                other,
            ),
{
    let index = insert_index(names, name);
    let after = insert_sorted(names, name);
    lemma_insert_index(names, name);
    if names.contains(name) {
        let at = choose|at: int| 0 <= at < names.len() && names[at] == name;
        if at < index {
            lemma_name_less_asymmetric(names[at], name);
        } else if at > index {
            lemma_name_less_asymmetric(names[index], names[at]);
        }
    }
    if stands_at(names, name, index) {
        assert(names[index] == name);
    } else {
        assert forall|i: int, j: int| 0 <= i < j < after.len() implies name_less(
            after[i],
            after[j],
        ) by {
            if j == index {
                assert(after[i] == names[i]);
            } else if i == index {
                assert(after[j] == names[j - 1]);
                lemma_name_less_total(names[index], name);
                if j - 1 > index {
                    lemma_name_less_transitive(name, names[index], names[j - 1]);
                }
            } else {
                let before_i = if i < index { i } else { i - 1 };
                let before_j = if j < index { j } else { j - 1 };
                assert(after[i] == names[before_i]);
                assert(after[j] == names[before_j]);
            }
        }
        assert forall|other: Seq<char>| #[trigger]
            after.contains(other) <==> other == name || names.contains(other) by {
            if after.contains(other) {
                let at = choose|at: int| 0 <= at < after.len() && after[at] == other;
                if at < index {
                    assert(names[at] == other);
                } else if at > index {
                    assert(names[at - 1] == other);
                }
            }
            if other == name {
                assert(after[index] == name);
            }
            if names.contains(other) {
                let at = choose|at: int| 0 <= at < names.len() && names[at] == other;
                if at < index {
                    assert(after[at] == other);
                } else {
                    assert(after[at + 1] == other);
                }
            }
        }
    }
}

} // verus!
