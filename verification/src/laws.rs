//! Properties of compilation that hold of every program: how names,
//! symbols and function types are looked up, and how data is laid out in
//! memory.
use vstd::prelude::*;
use crate::ast::DataType;
use crate::module::NumV;
use vstd::utf8::{
    encode_utf8, encode_scalar, decode_utf8, has_width_1_encoding, char_is_scalar,
    encode_utf8_decode_utf8,
};
use crate::ast::TopV;
use crate::semantics::{
    c_string, initial_state, imports_of, functions_of, last_index, CState, Kind, resolve, symbol_value, add_type, first_index, is_first, is_last,
    lemma_first_index_is, lemma_first_index_bound, lemma_last_index_is,
};

verus! {

/// No symbol has the value 0; asking again for a symbol gives the same
/// value and changes nothing; and, in a table without repeated names
/// (which asking keeps so), different symbols get different values.
pub proof fn law_symbols(st: CState, t: Seq<char>, u: Seq<char>)
    requires
        st.symbols.no_duplicates(),
    ensures
        symbol_value(st, t).1 >= 1,
        symbol_value(symbol_value(st, t).0, t) == symbol_value(st, t),
        symbol_value(st, t).0.symbols.no_duplicates(),
        t != u ==> symbol_value(symbol_value(st, t).0, u).1 != symbol_value(st, t).1,
{
    lemma_first_index_bound(st.symbols, t);
    let (st1, v) = symbol_value(st, t);
    match first_index(st.symbols, t) {
        Some(i) => {
            assert(st1 == st);
        },
        None => {
            assert forall|j: int| 0 <= j < st.symbols.len() implies st.symbols[j] != t by {
                if st.symbols[j] == t {
                    lemma_exists_first(st.symbols, t, j);
                }
            }
            let i = st.symbols.len() as int;
            assert(is_first(st1.symbols, t, i));
            lemma_first_index_is(st1.symbols, t, i);
        },
    }
    lemma_first_index_bound(st1.symbols, u);
    if t != u {
        let (st2, w) = symbol_value(st1, u);
        match first_index(st1.symbols, u) {
            Some(k) => {
                assert(st1.symbols[k] == u);
                assert(st1.symbols[v - 1] == t);
            },
            None => {},
        }
    }
}

/// If `x` occurs in `s` at `j`, it has a first occurrence.
proof fn lemma_exists_first<T>(s: Seq<T>, x: T, j: int)
    requires
        0 <= j < s.len(),
        s[j] == x,
    ensures
        exists|k: int| is_first(s, x, k),
    decreases j,
{
    if forall|m: int| 0 <= m < j ==> s[m] != x {
        assert(is_first(s, x, j));
    } else {
        let m = choose|m: int| 0 <= m < j && s[m] == x;
        lemma_exists_first(s, x, m);
    }
}

/// `nil` stands for 0 and `size_num` for 8, whatever is in scope.
pub proof fn law_reserved_names(st: CState)
    ensures
        resolve(st, "nil"@) == Ok::<(NumV, Kind), crate::semantics::CompileErrorV>(
            (NumV::Int(0), Kind::Global),
        ),
        resolve(st, "size_num"@) == Ok::<(NumV, Kind), crate::semantics::CompileErrorV>(
            (NumV::Int(8), Kind::Global),
        ),
{
    reveal_strlit("nil");
    reveal_strlit("size_num");
    assert("nil"@.len() != "size_num"@.len());
}

/// Shadowing: a name resolves to the local bound last under that name,
/// whatever else (locals, functions, globals) has the name.
pub proof fn law_innermost_local(st: CState, name: Seq<char>)
    requires
        name != "nil"@,
        name != "size_num"@,
    ensures
        resolve(CState { locals: st.locals.push(name), ..st }, name) == Ok::<
            (NumV, Kind),
            crate::semantics::CompileErrorV,
        >((NumV::Int(st.locals.len() as int), Kind::Local)),
{
    let locals = st.locals.push(name);
    assert(is_last(locals, name, st.locals.len() as int));
    lemma_last_index_is(locals, name, st.locals.len() as int);
}

/// A function signature's type index points at that signature; asking
/// again gives the same index and changes nothing; earlier types stay.
pub proof fn law_type_table(st: CState, ins: Seq<DataType>, out: Option<DataType>)
    ensures
        0 <= add_type(st, ins, out).1 < add_type(st, ins, out).0.types.len(),
        add_type(st, ins, out).0.types[add_type(st, ins, out).1] == (ins, out),
        add_type(add_type(st, ins, out).0, ins, out) == add_type(st, ins, out),
        st.types.is_prefix_of(add_type(st, ins, out).0.types),
{
    lemma_first_index_bound(st.types, (ins, out));
    let (st1, t) = add_type(st, ins, out);
    match first_index(st.types, (ins, out)) {
        Some(i) => {
            assert(st1 == st);
        },
        None => {
            assert forall|j: int| 0 <= j < st.types.len() implies st.types[j] != (ins, out) by {
                if st.types[j] == (ins, out) {
                    lemma_exists_first(st.types, (ins, out), j);
                }
            }
            assert(is_first(st1.types, (ins, out), t));
            lemma_first_index_is(st1.types, (ins, out), t);
            assert(st.types =~= st1.types.take(st.types.len() as int));
        },
    }
    assert(st.types.is_prefix_of(st1.types));
}

proof fn lemma_scalar_bytes_nonzero(c: char)
    requires
        c != '\0',
    ensures
        forall|i: int|
            0 <= i < encode_scalar(c as u32).len() ==> #[trigger] encode_scalar(c as u32)[i] != 0,
{
    char_is_scalar(c);
    let s = c as u32;
    assert(s != 0);
    assert(forall|y: u8| #[trigger] (0xC0u8 | y) != 0) by (bit_vector);
    assert(forall|y: u8| #[trigger] (0xE0u8 | y) != 0) by (bit_vector);
    assert(forall|y: u8| #[trigger] (0xF0u8 | y) != 0) by (bit_vector);
    assert(forall|y: u8| #[trigger] (0x80u8 | y) != 0) by (bit_vector);
    if has_width_1_encoding(s) {
        assert(((s & 0x7F) as u8) != 0) by (bit_vector)
            requires
                s != 0,
                s <= 0x7F,
        ;
    }
}

proof fn lemma_encode_nonzero(t: Seq<char>)
    requires
        forall|i: int| 0 <= i < t.len() ==> t[i] != '\0',
    ensures
        forall|i: int| 0 <= i < encode_utf8(t).len() ==> #[trigger] encode_utf8(t)[i] != 0,
    decreases t.len(),
{
    if t.len() > 0 {
        lemma_scalar_bytes_nonzero(t[0]);
        lemma_encode_nonzero(t.drop_first());
        let a = encode_scalar(t[0] as u32);
        let b = encode_utf8(t.drop_first());
        assert forall|i: int| 0 <= i < encode_utf8(t).len() implies #[trigger] encode_utf8(t)[i]
            != 0 by {
            if i < a.len() {
                assert(encode_utf8(t)[i] == a[i]);
            } else {
                assert(encode_utf8(t)[i] == b[i - a.len()]);
            }
        }
    }
}

/// Texts are C strings in memory: the data of a text without NUL
/// characters has no 0 byte but the last, and the bytes before it decode
/// back to the text.
pub proof fn law_c_string(t: Seq<char>)
    requires
        forall|i: int| 0 <= i < t.len() ==> t[i] != '\0',
    ensures
        c_string(t).len() >= 1,
        c_string(t).last() == 0,
        forall|i: int| 0 <= i < c_string(t).len() - 1 ==> #[trigger] c_string(t)[i] != 0,
        decode_utf8(c_string(t).drop_last()) == t,
{
    lemma_encode_nonzero(t);
    assert(c_string(t).drop_last() =~= encode_utf8(t));
    encode_utf8_decode_utf8(t);
    assert forall|i: int| 0 <= i < c_string(t).len() - 1 implies #[trigger] c_string(t)[i] != 0 by {
        assert(c_string(t)[i] == encode_utf8(t)[i]);
    }
}

/// A defined function's handle is its index among all functions, the
/// imports first: the `k`-th defined function has handle `E + k`, where `E`
/// is the number of imports (when no import or earlier function has its
/// name, and no local shadows it); entry `E + k` of the table is that
/// function (`law_function_table`).
pub proof fn law_function_handle(tops: Seq<TopV>, k: int, st: CState)
    requires
        st.function_names == initial_state(tops).function_names,
        0 <= k < functions_of(tops).len(),
        functions_of(tops)[k].name != "nil"@,
        functions_of(tops)[k].name != "size_num"@,
        forall|j: int|
            0 <= j < imports_of(tops).len() + k ==> st.function_names[j] != functions_of(
                tops,
            )[k].name,
        last_index(st.locals, functions_of(tops)[k].name) is None,
    ensures
        resolve(st, functions_of(tops)[k].name) == Ok::<
            (NumV, Kind),
            crate::semantics::CompileErrorV,
        >((NumV::Int(imports_of(tops).len() + k), Kind::Function)),
{
    let name = functions_of(tops)[k].name;
    let e = imports_of(tops).len() as int;
    assert(st.function_names[e + k] == name);
    assert(is_first(st.function_names, name, e + k));
    lemma_first_index_is(st.function_names, name, e + k);
}

} // verus!
